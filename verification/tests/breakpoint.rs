use sq_common::breakpoint::{
    breakpoint_from, file_part_len, parse_breakpoint, BreakpointStore, SqBreakpoint,
    StoredBreakpoint,
};
use sq_common::dbg::EventWithSrc;
use sq_common::sq::DebugEvent;

fn s(text: &str) -> String {
    text.to_string()
}

fn bp(src: Option<&str>, func: Option<&str>, line: Option<i32>) -> SqBreakpoint {
    SqBreakpoint { src_file: src.map(s), fn_name: func.map(s), line }
}

#[test]
fn spec_with_file_function_and_line() {
    assert_eq!(
        parse_breakpoint("file:foo.nut:bar:10"),
        Some(bp(Some("foo.nut"), Some("bar"), Some(10)))
    );
}

#[test]
fn spec_with_a_line_alone() {
    assert_eq!(parse_breakpoint("10"), Some(bp(None, None, Some(10))));
}

#[test]
fn spec_with_a_function_alone() {
    assert_eq!(parse_breakpoint("bar"), Some(bp(None, Some("bar"), None)));
}

#[test]
fn spec_with_two_numbers_is_rejected() {
    assert_eq!(parse_breakpoint("10:20"), None);
}

#[test]
fn spec_with_a_file_alone() {
    assert_eq!(parse_breakpoint("file:foo.nut"), Some(bp(Some("foo.nut"), None, None)));
    assert_eq!(parse_breakpoint("file:foo.nut:12"), Some(bp(Some("foo.nut"), None, Some(12))));
    assert_eq!(parse_breakpoint("file:foo.nut:f"), Some(bp(Some("foo.nut"), Some("f"), None)));
}

#[test]
fn the_word_file_alone_names_a_function() {
    assert_eq!(parse_breakpoint("file"), Some(bp(None, Some("file"), None)));
}

#[test]
fn malformed_specs_are_rejected() {
    for spec in ["", ":", "bar:", "bar:x", "1bar", "a:b:c", "file:f:a:1:2", "bar:99999999999", "٣x"] {
        assert_eq!(parse_breakpoint(spec), None, "spec {:?}", spec);
    }
}

#[test]
fn line_at_the_edge_of_the_range() {
    assert_eq!(parse_breakpoint("2147483647"), Some(bp(None, None, Some(i32::MAX))));
    assert_eq!(parse_breakpoint("2147483648"), None);
    assert_eq!(parse_breakpoint("+5"), Some(bp(None, Some("+5"), None)));
}

#[test]
fn every_parsed_breakpoint_has_a_part_set() {
    for spec in ["file:a", "f", "1", "f:1", "file:a:f:1"] {
        assert!(parse_breakpoint(spec).unwrap().is_set());
    }
    assert!(!SqBreakpoint::new().is_set());
}

#[test]
fn builder_sets_the_parts() {
    let made = SqBreakpoint::new().src_file(s("a.nut")).fn_name(s("f")).line(3);
    assert_eq!(made, bp(Some("a.nut"), Some("f"), Some(3)));
    assert_eq!(made.copy(), made);
}

#[test]
fn store_numbers_from_one_and_never_reuses() {
    let mut store = BreakpointStore::new();
    assert_eq!(store.add(bp(None, Some("f"), None)), Some(1));
    assert_eq!(store.add(bp(None, None, Some(2))), Some(2));
    store.remove(Some(2));
    assert_eq!(store.add(bp(None, None, Some(3))), Some(3));
    let numbers: Vec<u32> = store.entries().iter().map(|e| e.0).collect();
    assert_eq!(numbers, vec![1, 3]);
    assert_eq!(store.counter(), 4);
}

#[test]
fn store_refuses_a_breakpoint_without_parts() {
    let mut store = BreakpointStore::new();
    assert_eq!(store.add(SqBreakpoint::new()), None);
    assert_eq!(store.len(), 0);
    assert_eq!(store.counter(), 1);
}

#[test]
fn store_refuses_when_numbers_run_out() {
    let entries = vec![(1u32, StoredBreakpoint { enabled: true, bp: bp(None, Some("f"), None) })];
    let mut store = BreakpointStore::restore(entries, u32::MAX).unwrap();
    assert_eq!(store.add(bp(None, Some("g"), None)), None);
    assert_eq!(store.len(), 1);
}

#[test]
fn enable_and_disable_one_or_all() {
    let mut store = BreakpointStore::new();
    store.add(bp(None, Some("a"), None));
    store.add(bp(None, Some("b"), None));
    store.add(bp(None, Some("c"), None));
    store.enable(Some(2), false);
    let flags: Vec<bool> = store.entries().iter().map(|e| e.1.enabled).collect();
    assert_eq!(flags, vec![true, false, true]);
    store.enable(None, false);
    let flags: Vec<bool> = store.entries().iter().map(|e| e.1.enabled).collect();
    assert_eq!(flags, vec![false, false, false]);
    store.enable(Some(9), true);
    store.enable(Some(3), true);
    let flags: Vec<bool> = store.entries().iter().map(|e| e.1.enabled).collect();
    assert_eq!(flags, vec![false, false, true]);
    assert_eq!(store.entries()[2].1.bp, bp(None, Some("c"), None));
}

#[test]
fn remove_one_or_all() {
    let mut store = BreakpointStore::new();
    store.add(bp(None, Some("a"), None));
    store.add(bp(None, Some("b"), None));
    store.remove(Some(7));
    assert_eq!(store.len(), 2);
    store.remove(Some(1));
    assert_eq!(store.entries()[0].0, 2);
    store.remove(None);
    assert_eq!(store.len(), 0);
    assert_eq!(store.counter(), 3);
}

#[test]
fn breakpoint_matches_what_it_names() {
    let call = EventWithSrc { event: DebugEvent::FnCall(s("f"), Some(4)), src: Some(s("a.nut")) };
    let line = EventWithSrc { event: DebugEvent::Line(4), src: None };
    assert!(bp(None, Some("f"), None).matches(&call));
    assert!(bp(Some("a.nut"), Some("f"), Some(4)).matches(&call));
    assert!(!bp(Some("b.nut"), None, None).matches(&call));
    assert!(!bp(None, Some("g"), None).matches(&call));
    assert!(!bp(None, None, Some(5)).matches(&call));
    assert!(bp(None, None, Some(4)).matches(&line));
    assert!(!bp(None, Some("f"), None).matches(&line));
    assert!(!bp(Some("a.nut"), None, None).matches(&line));
}

#[test]
fn hit_is_the_first_enabled_match() {
    let mut store = BreakpointStore::new();
    store.add(bp(None, None, Some(4)));
    store.add(bp(None, None, Some(4)));
    store.add(bp(None, Some("f"), None));
    let line = EventWithSrc { event: DebugEvent::Line(4), src: None };
    assert_eq!(store.hit(&line), Some(1));
    store.enable(Some(1), false);
    assert_eq!(store.hit(&line), Some(2));
    store.enable(None, false);
    assert_eq!(store.hit(&line), None);
}

#[test]
fn restore_of_breakpoints_checks_the_numbering() {
    let one = |n: u32| (n, StoredBreakpoint { enabled: false, bp: bp(None, None, Some(1)) });
    assert!(BreakpointStore::restore(vec![one(1), one(2)], 3).is_some());
    assert!(BreakpointStore::restore(vec![], 1).is_some());
    assert!(BreakpointStore::restore(vec![], 0).is_none());
    assert!(BreakpointStore::restore(vec![one(2), one(1)], 3).is_none());
    assert!(BreakpointStore::restore(vec![one(1), one(1)], 3).is_none());
    assert!(BreakpointStore::restore(vec![one(0)], 3).is_none());
    assert!(BreakpointStore::restore(vec![one(3)], 3).is_none());
    let unset = (1u32, StoredBreakpoint { enabled: true, bp: SqBreakpoint::new() });
    assert!(BreakpointStore::restore(vec![unset], 2).is_none());
}

#[test]
fn store_round_trips_through_its_parts() {
    let mut store = BreakpointStore::new();
    store.add(bp(Some("a.nut"), None, None));
    store.add(bp(None, Some("f"), Some(9)));
    store.enable(Some(1), false);
    store.remove(Some(1));
    store.add(bp(None, None, Some(1)));
    let entries = store.entries().clone();
    let again = BreakpointStore::restore(store.copy().into_parts().0, store.counter()).unwrap();
    assert_eq!(again.entries(), &entries);
    assert_eq!(again.counter(), store.counter());
}

/// Reads a specification with the slice patterns and string methods of the
/// standard library; `None` also where a number does not fit.
fn read_directly(spec: &str) -> Option<SqBreakpoint> {
    let parts: Vec<&str> = spec.split(':').collect();
    let (src, rest) = match parts[..] {
        ["file", src, ..] => (Some(src.to_string()), &parts[2..]),
        _ => (None, &parts[..]),
    };
    match rest {
        [func, line]
            if func.starts_with(|c: char| !c.is_numeric())
                && line.chars().all(|c| c.is_ascii_digit()) =>
        {
            let line: i32 = line.parse().ok()?;
            Some(SqBreakpoint { src_file: src, fn_name: Some(func.to_string()), line: Some(line) })
        }
        [line] if line.chars().all(|c| c.is_ascii_digit()) => {
            let line: i32 = line.parse().ok()?;
            Some(SqBreakpoint { src_file: src, fn_name: None, line: Some(line) })
        }
        [func] if func.starts_with(|c: char| !c.is_numeric()) => {
            Some(SqBreakpoint { src_file: src, fn_name: Some(func.to_string()), line: None })
        }
        [] => Some(SqBreakpoint { src_file: src, fn_name: None, line: None }),
        _ => None,
    }
}

#[test]
fn parsing_agrees_with_a_direct_reading_on_many_specs() {
    let tokens = [
        "", "file", "foo.nut", "bar", "10", "0", "007", "99999999999", "2147483647", "1a", "a1",
        "٣", "²x", "+5", "-5", " ", "fi le",
    ];
    let mut specs: Vec<String> = Vec::new();
    for a in tokens {
        specs.push(a.to_string());
        for b in tokens {
            specs.push(format!("{a}:{b}"));
            for c in tokens {
                specs.push(format!("{a}:{b}:{c}"));
                for d in ["", "bar", "10", "x:y"] {
                    specs.push(format!("{a}:{b}:{c}:{d}"));
                }
            }
        }
    }
    for spec in &specs {
        assert_eq!(parse_breakpoint(spec), read_directly(spec), "spec {:?}", spec);
    }
}

#[test]
fn breakpoint_is_written_as_its_specification() {
    for spec in ["file:foo.nut:bar:10", "file:foo.nut", "bar:10", "bar", "10", "file:a:7", "file"] {
        assert_eq!(parse_breakpoint(spec).unwrap().to_string(), spec);
    }
    assert_eq!(parse_breakpoint("007").unwrap().to_string(), "7");
    assert_eq!(SqBreakpoint::new().to_string(), "");
    assert_eq!(SqBreakpoint::new().line(-3).to_string(), "-3");
}

#[test]
fn store_lists_its_breakpoints() {
    let mut store = BreakpointStore::new();
    assert_eq!(store.to_string(), "Breakpoints:");
    store.add(parse_breakpoint("file:foo.nut:bar:10").unwrap());
    store.add(parse_breakpoint("baz").unwrap());
    store.add(parse_breakpoint("12").unwrap());
    store.enable(Some(2), false);
    store.remove(Some(1));
    assert_eq!(store.to_string(), "Breakpoints:\n2: baz (disabled)\n3: 12");
}

#[test]
fn written_specifications_read_back_as_the_same_breakpoint() {
    let tokens = ["", "file", "foo.nut", "bar", "10", "007", "2147483647", "a1", "-5"];
    let mut specs: Vec<String> = Vec::new();
    for a in tokens {
        specs.push(a.to_string());
        for b in tokens {
            specs.push(format!("{a}:{b}"));
            for c in tokens {
                specs.push(format!("{a}:{b}:{c}"));
                for d in tokens {
                    specs.push(format!("{a}:{b}:{c}:{d}"));
                }
            }
        }
    }
    let mut read = 0;
    for spec in &specs {
        if let Some(bp) = parse_breakpoint(spec) {
            assert_eq!(parse_breakpoint(&bp.to_string()), Some(bp), "spec {:?}", spec);
            read += 1;
        }
    }
    assert!(read > 50);
}

fn tokens(spec: &str) -> Vec<Vec<char>> {
    spec.split(':').map(|t| t.chars().collect()).collect()
}

#[test]
fn breakpoint_is_made_from_its_tokens() {
    assert_eq!(
        breakpoint_from(&tokens("file:foo.nut:bar:10"), false),
        Some(bp(Some("foo.nut"), Some("bar"), Some(10)))
    );
    assert_eq!(breakpoint_from(&tokens("10"), true), Some(bp(None, None, Some(10))));
    assert_eq!(breakpoint_from(&tokens("bar"), false), Some(bp(None, Some("bar"), None)));
    assert_eq!(breakpoint_from(&tokens("10:20"), true), None);
    assert_eq!(breakpoint_from(&tokens("bar"), true), None);
    assert_eq!(breakpoint_from(&tokens("bar:10"), true), None);
    assert_eq!(breakpoint_from(&tokens(":10"), false), None);
    assert_eq!(breakpoint_from(&tokens("file:x"), false), Some(bp(Some("x"), None, None)));
    assert_eq!(breakpoint_from(&tokens("a:1:2"), false), None);
    assert_eq!(breakpoint_from(&vec![], false), Some(bp(None, None, None)));
}

#[test]
fn file_part_takes_two_tokens() {
    assert_eq!(file_part_len(&tokens("file:foo.nut:bar")), 2);
    assert_eq!(file_part_len(&tokens("file:")), 2);
    assert_eq!(file_part_len(&tokens("file")), 0);
    assert_eq!(file_part_len(&tokens("files:a")), 0);
    assert_eq!(file_part_len(&tokens("bar:10")), 0);
    assert_eq!(file_part_len(&vec![]), 0);
}

#[test]
fn among_ascii_characters_only_digits_keep_a_token_from_naming_a_function() {
    for code in 0..128u8 {
        let c = code as char;
        let spec = format!("{c}x");
        let names = !c.is_ascii_digit() && c != ':';
        assert_eq!(parse_breakpoint(&spec).is_some(), names, "first character {:?}", c);
    }
}
