use transjlc::digest::to_hex;
use transjlc::gerber::{
    insert_at_anchor, insert_line_at, normalize_line_ends, renumber_found, renumber_match,
    write_fingerprint_size,
};
use transjlc::patterns::first_number_in;
use transjlc::regexp::number_of_group;
use transjlc::text::{
    chars_of, contains, ends_with, join_chars, parse_u32, push_decimal, same_chars, split_chars,
    starts_with,
};

fn chars(s: &str) -> Vec<char> {
    s.chars().collect()
}

fn text(v: &[char]) -> String {
    v.iter().collect()
}

fn groups(parts: &[Option<&str>]) -> Vec<Option<String>> {
    parts.iter().map(|p| p.map(String::from)).collect()
}

#[test]
fn text_is_split_at_every_separator() {
    let pieces = |s: &str| -> Vec<String> {
        split_chars(&chars(s), '\n').iter().map(|p| text(p)).collect()
    };
    assert_eq!(pieces(""), vec![""]);
    assert_eq!(pieces("a"), vec!["a"]);
    assert_eq!(pieces("a\nb"), vec!["a", "b"]);
    assert_eq!(pieces("\na\n\nb\n"), vec!["", "a", "", "b", ""]);
    for s in ["", "a", "a\nb", "\na\n\nb\n", "\n", "\n\n"] {
        let expected: Vec<String> = s.split('\n').map(String::from).collect();
        assert_eq!(pieces(s), expected);
        assert_eq!(text(&join_chars(&split_chars(&chars(s), '\n'), &chars("\n"))), s);
    }
    assert_eq!(text(&join_chars(&Vec::new(), &chars(", "))), "");
    assert_eq!(
        text(&join_chars(&vec![chars("a"), chars(""), chars("b")], &chars(", "))),
        "a, , b"
    );
    assert_eq!(chars_of("a\u{4e0b}b"), vec!['a', '\u{4e0b}', 'b']);
}

#[test]
fn texts_are_searched_for_other_texts() {
    assert!(contains(&chars("G54D10*"), &chars("G54D")));
    assert!(contains(&chars("xG54D"), &chars("G54D")));
    assert!(!contains(&chars("G54"), &chars("G54D")));
    assert!(contains(&chars("abc"), &chars("")));
    assert!(contains(&chars(""), &chars("")));
    assert!(!contains(&chars(""), &chars("a")));
    assert!(starts_with(&chars("%MOMM*%"), &chars("%MO")));
    assert!(!starts_with(&chars("x%MOMM*%"), &chars("%MO")));
    assert!(!starts_with(&chars("%M"), &chars("%MO")));
    assert!(ends_with(&chars("board.drl"), &chars(".drl")));
    assert!(!ends_with(&chars("board.drl "), &chars(".drl")));
    assert!(!ends_with(&chars("drl"), &chars(".drl")));
    assert!(same_chars(&chars("kicad"), &chars("kicad")));
    assert!(!same_chars(&chars("kicad"), &chars("kicad ")));
    assert!(!same_chars(&chars("kicad"), &chars("kicaD")));
}

#[test]
fn numbers_are_written_and_read_in_decimal() {
    for n in [0u64, 7, 10, 99, 100, 9999, 4294967295, 4294967296, u64::MAX] {
        let mut out = chars("x");
        push_decimal(&mut out, n);
        assert_eq!(text(&out), format!("x{}", n));
    }
    assert_eq!(parse_u32(&chars("0")), Some(0));
    assert_eq!(parse_u32(&chars("42")), Some(42));
    assert_eq!(parse_u32(&chars("+42")), Some(42));
    assert_eq!(parse_u32(&chars("007")), Some(7));
    assert_eq!(parse_u32(&chars("4294967295")), Some(4294967295));
    assert_eq!(parse_u32(&chars("4294967296")), None);
    assert_eq!(parse_u32(&chars("99999999999999999999999")), None);
    assert_eq!(parse_u32(&chars("")), None);
    assert_eq!(parse_u32(&chars("+")), None);
    assert_eq!(parse_u32(&chars("-1")), None);
    assert_eq!(parse_u32(&chars("++1")), None);
    assert_eq!(parse_u32(&chars("1+")), None);
    assert_eq!(parse_u32(&chars("12a")), None);
    assert_eq!(parse_u32(&chars(" 12")), None);
    assert_eq!(parse_u32(&chars("\u{663}")), None);
    for s in ["0", "42", "+42", "007", "4294967295", "4294967296", "", "+", "-1", "1+", "٣"] {
        assert_eq!(parse_u32(&chars(s)), s.parse::<u32>().ok());
    }
}

#[test]
fn bytes_are_written_in_hexadecimal() {
    assert_eq!(text(&to_hex(&[])), "");
    assert_eq!(text(&to_hex(&[0, 1, 15, 16, 171, 255])), "00010f10abff");
}

#[test]
fn line_ends_are_normalised_from_the_left() {
    for s in ["", "a", "\r", "\n", "\r\n", "a\r\nb\r\n", "\r\r\n", "\r\n\r\n", "\n\r", "a\rb"] {
        assert_eq!(text(&normalize_line_ends(&chars(s))), s.replace("\r\n", "\n"));
    }
}

#[test]
fn numbers_are_taken_from_the_groups_of_a_match() {
    let found = groups(&[Some("x12y34"), None, Some("ab"), Some("12"), Some("34")]);
    assert_eq!(first_number_in(&found, 1), Some(12));
    assert_eq!(first_number_in(&found, 0), Some(12));
    assert_eq!(first_number_in(&found, 4), Some(34));
    assert_eq!(first_number_in(&found, 5), None);
    assert_eq!(first_number_in(&found, 9), None);
    assert_eq!(first_number_in(&groups(&[Some("7")]), 1), None);
    assert_eq!(first_number_in(&groups(&[Some("7")]), 0), Some(7));
    assert_eq!(number_of_group(&found), None);
    assert_eq!(number_of_group(&groups(&[Some("%ADD12C"), Some("12")])), Some(12));
    assert_eq!(number_of_group(&groups(&[Some("%ADD12C"), Some("1x")])), None);
    assert_eq!(number_of_group(&groups(&[Some("12")])), None);
    assert_eq!(number_of_group(&Vec::new()), None);
}

#[test]
fn matched_lines_are_renumbered_from_their_groups() {
    let line = groups(&[Some("%ADD12C,1*%"), Some("%ADD"), Some("12"), Some("C,1*%")]);
    assert_eq!(text(&renumber_match(&line, 12, 9999)), "%ADD13C,1*%");
    assert_eq!(text(&renumber_match(&line, 13, 9999)), "%ADD12C,1*%");
    assert_eq!(text(&renumber_match(&line, 0, 12)), "%ADD12C,1*%");
    assert_eq!(text(&renumber_match(&line, 0, 11)), "%ADD13C,1*%");
    let odd = groups(&[Some("G54D0099*"), Some("G54D"), Some("0099"), None]);
    assert_eq!(text(&renumber_match(&odd, 99, 9999)), "G54D100");
    assert_eq!(text(&renumber_match(&odd, 100, 9999)), "G54D0099*");
    let unread = groups(&[Some("G54Dxx*"), Some("G54D"), Some("xx"), Some("*")]);
    assert_eq!(text(&renumber_match(&unread, 1, 9999)), "G54Dxx*");
    assert_eq!(text(&renumber_match(&unread, 0, 9999)), "G54D1*");
    let top = groups(&[Some("a"), Some("b"), Some("4294967295"), Some("c")]);
    assert_eq!(text(&renumber_match(&top, 0, 9999)), "b4294967296c");

    let gaps = vec!["head\n".to_string(), "\nmid\n".to_string(), "".to_string()];
    let found = vec![line.clone(), odd.clone()];
    assert_eq!(
        text(&renumber_found(&gaps, &found, 12, 9999)),
        "head\n%ADD13C,1*%\nmid\nG54D100"
    );
    assert_eq!(text(&renumber_found(&vec!["all".to_string()], &Vec::new(), 0, 0)), "all");
}

#[test]
fn definition_is_put_in_as_a_line() {
    assert_eq!(text(&insert_line_at(&chars("ab\ncd"), 3, &chars("NEW"))), "ab\nNEW\ncd");
    assert_eq!(text(&insert_line_at(&chars("ab"), 0, &chars("NEW"))), "NEW\nab");
    assert_eq!(text(&insert_line_at(&chars("ab"), 2, &chars("NEW"))), "abNEW\n");
    assert_eq!(text(&insert_at_anchor(&chars("%MOMM*%\nG01*"), &chars("NEW"))), "%MOMM*%\nNEW\nG01*");
    assert_eq!(text(&insert_at_anchor(&chars("G01*\n%MOMM*%"), &chars("NEW"))), "G01*\n%MOMM*%\nNEW");
    assert_eq!(text(&insert_at_anchor(&chars("%MOMM*%\nX\n%LPD*%\nG01*"), &chars("NEW"))), "%MOMM*%\nX\nNEW\n%LPD*%\nG01*");
    assert_eq!(text(&insert_at_anchor(&chars(""), &chars("NEW"))), "\nNEW");
    assert_eq!(text(&insert_at_anchor(&chars("x%MO\nG"), &chars("NEW"))), "x%MO\nG\nNEW");
}

#[test]
fn fingerprint_size_holds_the_draw_and_the_digest() {
    assert_eq!(text(&write_fingerprint_size(0, 0)), "0.0100");
    assert_eq!(text(&write_fingerprint_size(0, 100)), "0.0100");
    assert_eq!(text(&write_fingerprint_size(0, 200)), "0.0100");
    assert_eq!(text(&write_fingerprint_size(1, 0)), "0.0100");
    assert_eq!(text(&write_fingerprint_size(0, 1)), "0.0001");
    assert_eq!(text(&write_fingerprint_size(37, 48)), "0.3748");
    assert_eq!(text(&write_fingerprint_size(99, 255)), "0.9955");
    assert_eq!(text(&write_fingerprint_size(5, 107)), "0.0507");
}
