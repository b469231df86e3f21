use rspell::encoding::detect_encoding;
use rspell::encoding::normalize;
use rspell::encoding::replace_first_chars;
use rspell::SpellError;
use rspell::SpellResult;

#[test]
fn detects_label_of_first_set_line() {
    let raw = b"# comment\nSET ISO8859-1\nSET KOI8-R\n".to_vec();
    assert_eq!(detect_encoding(&raw), b"ISO8859-1".to_vec());
}

#[test]
fn detects_label_with_trailing_whitespace() {
    let raw = b"SET UTF-8 \t\r\n".to_vec();
    assert_eq!(detect_encoding(&raw), b"UTF-8".to_vec());
}

#[test]
fn defaults_to_utf8_without_set_line() {
    assert_eq!(detect_encoding(&b"no directive here\nat all".to_vec()), b"utf-8".to_vec());
    assert_eq!(detect_encoding(&Vec::new()), b"utf-8".to_vec());
    // `SET` must start the line; elsewhere it does not count.
    assert_eq!(detect_encoding(&b"x SET KOI8-R\n".to_vec()), b"utf-8".to_vec());
}

#[test]
fn detects_label_on_last_line_without_newline() {
    assert_eq!(detect_encoding(&b"first\nSET ISO8859-2".to_vec()), b"ISO8859-2".to_vec());
}

#[test]
fn normalize_passes_utf8_through() {
    let raw = b"SET UTF-8\nTRY abc\n".to_vec();
    match normalize(raw.clone()) {
        Ok(out) => assert_eq!(out, raw),
        Err(_) => panic!("utf-8 input must normalize"),
    }
}

#[test]
fn normalize_transcodes_and_rewrites_directive() {
    let raw = b"SET ISO8859-1\nWORDCHARS \xE9\xE8\n".to_vec();
    match normalize(raw) {
        Ok(out) => assert_eq!(out, b"SET UTF-8\nWORDCHARS \xC3\xA9\xC3\xA8\n".to_vec()),
        Err(_) => panic!("a recognized label must normalize"),
    }
}

#[test]
fn normalize_rejects_unknown_label() {
    let raw = b"SET NO-SUCH-CHARSET\nabc\n".to_vec();
    match normalize(raw) {
        Ok(_) => panic!("an unrecognized label is fatal"),
        Err(SpellError::ConversionError { message }) => {
            assert_eq!(message, "unrecognized encoding label NO-SUCH-CHARSET");
        }
        Err(_) => panic!("wrong error kind"),
    }
}

#[test]
fn normalize_accepts_case_insensitive_utf8_label() {
    // The registry resolves labels case-insensitively: "utf8" names UTF-8 too,
    // so the bytes pass through unchanged.
    let raw = b"SET utf8\n\xC3\xA9\n".to_vec();
    match normalize(raw.clone()) {
        Ok(out) => assert_eq!(out, raw),
        Err(_) => panic!("utf8 label must be recognized"),
    }
}

#[test]
fn replace_first_replaces_only_first_occurrence() {
    let text: Vec<char> = "SET X then SET X".chars().collect();
    let pat: Vec<char> = "SET X".chars().collect();
    let rep: Vec<char> = "SET UTF-8".chars().collect();
    let out: String = replace_first_chars(&text, &pat, &rep).into_iter().collect();
    assert_eq!(out, "SET UTF-8 then SET X");
}

#[test]
fn replace_first_without_occurrence_keeps_text() {
    let text: Vec<char> = "nothing to do".chars().collect();
    let pat: Vec<char> = "SET X".chars().collect();
    let rep: Vec<char> = "SET Y".chars().collect();
    let out: String = replace_first_chars(&text, &pat, &rep).into_iter().collect();
    assert_eq!(out, "nothing to do");
}

#[test]
fn spell_result_reports_correctness() {
    assert!(SpellResult::Correct.correct());
    let incorrect = SpellResult::Incorrect {
        suggestions: vec![String::from("word")],
    };
    assert!(!incorrect.correct());
}
