use sq_common::eval::{capture_from, prepare, read_capture, EvalError};

fn s(text: &str) -> String {
    text.to_string()
}

#[test]
fn script_without_a_capture_line_runs_as_it_is() {
    assert_eq!(prepare("print(1)\nprint(2)\n"), Ok((s("print(1)\nprint(2)\n"), vec![])));
    assert_eq!(prepare("x"), Ok((s("x"), vec![])));
    assert_eq!(prepare("|not closed\nx"), Ok((s("|not closed\nx"), vec![])));
    assert_eq!(prepare("\n|1.a|"), Ok((s("\n|1.a|"), vec![])));
}

#[test]
fn empty_script_is_refused() {
    assert_eq!(prepare(""), Err(EvalError::EmptyBuffer));
}

#[test]
fn capture_list_is_read_from_the_first_line() {
    assert_eq!(
        prepare("|3.this, 1.local1 ,2.other|\nreturn local1"),
        Ok((s("return local1"), vec![(s("this"), 3), (s("local1"), 1), (s("other"), 2)]))
    );
}

#[test]
fn capture_line_may_be_surrounded_by_white_space() {
    assert_eq!(prepare("  |1.a|\t\r\nx"), Ok((s("x"), vec![(s("a"), 1)])));
}

#[test]
fn lines_after_the_capture_line_are_joined_without_breaks() {
    assert_eq!(prepare("|1.a|\nfoo\nbar\r\nbaz"), Ok((s("foobarbaz"), vec![(s("a"), 1)])));
    assert_eq!(prepare("|1.a|"), Ok((s(""), vec![(s("a"), 1)])));
}

#[test]
fn level_that_is_no_number_is_reported_with_the_entry() {
    assert_eq!(
        prepare("|x.a|\n"),
        Err(EvalError::InvalidLevel { level: s("x"), spec: s("x.a") })
    );
    assert_eq!(
        prepare("|1.a, -2.b|\n"),
        Err(EvalError::InvalidLevel { level: s("-2"), spec: s(" -2.b") })
    );
}

#[test]
fn entry_that_is_no_level_and_name_is_reported() {
    assert_eq!(prepare("|a|\n"), Err(EvalError::InvalidCapture { spec: s("a") }));
    assert_eq!(prepare("|1.a.b|\n"), Err(EvalError::InvalidCapture { spec: s("1.a.b") }));
    assert_eq!(prepare("|1.2|\n"), Err(EvalError::InvalidCapture { spec: s("1.2") }));
    assert_eq!(prepare("|1.|\n"), Err(EvalError::InvalidCapture { spec: s("1.") }));
    assert_eq!(prepare("||\n"), Err(EvalError::InvalidCapture { spec: s("") }));
    assert_eq!(prepare("|\n"), Err(EvalError::InvalidCapture { spec: s("") }));
    assert_eq!(prepare("|1.a,|\n"), Err(EvalError::InvalidCapture { spec: s("") }));
}

#[test]
fn the_first_wrong_entry_is_the_one_reported() {
    assert_eq!(
        prepare("|1.a, b, x.c|\n"),
        Err(EvalError::InvalidCapture { spec: s(" b") })
    );
}

#[test]
fn names_may_start_with_any_letter() {
    assert_eq!(prepare("|1.ünï|\n"), Ok((s(""), vec![(s("ünï"), 1)])));
    assert_eq!(prepare("|1._a|\n"), Err(EvalError::InvalidCapture { spec: s("1._a") }));
}

/// Makes a script ready with the iterators and string methods of the
/// standard library.
fn prepare_directly(script: &str) -> Result<(String, Vec<(String, u32)>), EvalError> {
    let Some(mut line) = script.lines().next() else {
        return Err(EvalError::EmptyBuffer);
    };
    line = line.trim();
    if !line.starts_with('|') || !line.ends_with('|') {
        return Ok((script.to_string(), vec![]));
    }
    let list = if line.len() >= 2 { &line[1..line.len() - 1] } else { "" };
    let mut out = vec![];
    for spec in list.split(',') {
        let parts: Vec<_> = spec.trim().split('.').collect();
        match &parts[..] {
            [lvl, name] if name.starts_with(|c: char| c.is_alphabetic()) => {
                if let Ok(lvl) = lvl.parse() {
                    out.push((name.to_string(), lvl));
                } else {
                    return Err(EvalError::InvalidLevel { level: lvl.to_string(), spec: spec.to_string() });
                }
            }
            _ => return Err(EvalError::InvalidCapture { spec: spec.to_string() }),
        }
    }
    Ok((script.lines().skip(1).collect(), out))
}

#[test]
fn preparing_agrees_with_a_direct_reading_on_many_scripts() {
    let firsts = [
        "", "|", "||", "|1.a|", " |1.a, 2.b| ", "|1.a,|", "|x.a|", "|1.1|", "|1.a.b|", "| 1 .a|",
        "|+1.a|", "|4294967296.a|", "|1.é|", "x|1.a|", "|1.a| x", "\t|3.this|\r", "|1.a|2.b|",
    ];
    let rests = ["", "\n", "\nfoo", "\nfoo\nbar", "\r\nfoo\r\n\r\nbar\r", "\n\n\n"];
    for first in firsts {
        for rest in rests {
            let script = format!("{first}{rest}");
            assert_eq!(prepare(&script), prepare_directly(&script), "script {:?}", script);
        }
    }
}

fn chars(text: &str) -> Vec<char> {
    text.chars().collect()
}

#[test]
fn capture_is_made_from_its_parts() {
    let parts = vec![chars("3"), chars("this")];
    assert_eq!(capture_from(&chars(" 3.this"), &parts, true), Ok(("this".to_string(), 3)));
    assert_eq!(
        capture_from(&chars(" 3.this"), &parts, false),
        Err(EvalError::InvalidCapture { spec: " 3.this".to_string() })
    );
    let bad_level = vec![chars("x"), chars("a")];
    assert_eq!(
        capture_from(&chars("x.a"), &bad_level, true),
        Err(EvalError::InvalidLevel { level: "x".to_string(), spec: "x.a".to_string() })
    );
    assert_eq!(
        capture_from(&chars("a"), &vec![chars("a")], true),
        Err(EvalError::InvalidCapture { spec: "a".to_string() })
    );
    assert_eq!(
        capture_from(&chars("1."), &vec![chars("1"), chars("")], true),
        Err(EvalError::InvalidCapture { spec: "1.".to_string() })
    );
}

#[test]
fn capture_entry_is_trimmed_before_it_is_read() {
    assert_eq!(read_capture(&chars("  2.name ")), Ok(("name".to_string(), 2)));
    assert_eq!(read_capture(&chars("2.é")), Ok(("é".to_string(), 2)));
    assert_eq!(
        read_capture(&chars("2.1")),
        Err(EvalError::InvalidCapture { spec: "2.1".to_string() })
    );
    assert_eq!(
        read_capture(&chars("2 .a")),
        Err(EvalError::InvalidLevel { level: "2 ".to_string(), spec: "2 .a".to_string() })
    );
}

#[test]
fn among_ascii_characters_only_letters_begin_a_captured_name() {
    for code in 0..128u8 {
        let c = code as char;
        let entry = chars(&format!("1.{c}"));
        assert_eq!(read_capture(&entry).is_ok(), c.is_ascii_alphabetic(), "first character {:?}", c);
    }
}
