use sq_common::buffers::ScriptBuffers;

fn s(text: &str) -> String {
    text.to_string()
}

#[test]
fn numbers_start_at_one_and_grow() {
    let mut b = ScriptBuffers::new();
    assert_eq!(b.add(s("a")), 1);
    assert_eq!(b.add(s("b")), 2);
    assert_eq!(b.get(1), Some(&s("a")));
    assert_eq!(b.get(2), Some(&s("b")));
    assert_eq!(b.get(3), None);
    assert_eq!(b.get(0), None);
    assert_eq!(b.len(), 2);
}

#[test]
fn deleted_numbers_are_not_given_again() {
    let mut b = ScriptBuffers::new();
    b.add(s("a"));
    b.add(s("b"));
    b.delete(2);
    assert_eq!(b.get(2), None);
    assert_eq!(b.add(s("c")), 3);
    assert_eq!(b.entries(), &vec![(1, s("a")), (3, s("c"))]);
}

#[test]
fn delete_of_a_missing_number_changes_nothing() {
    let mut b = ScriptBuffers::new();
    b.add(s("a"));
    b.delete(5);
    assert_eq!(b.entries(), &vec![(1, s("a"))]);
    assert_eq!(b.counter(), 2);
}

#[test]
fn replace_changes_the_text_in_place() {
    let mut b = ScriptBuffers::new();
    b.add(s("a"));
    b.add(s("b"));
    b.replace(1, s("z"));
    assert_eq!(b.entries(), &vec![(1, s("z")), (2, s("b"))]);
    b.replace(9, s("q"));
    assert_eq!(b.entries(), &vec![(1, s("z")), (2, s("b"))]);
}

#[test]
fn listing_of_no_buffers() {
    assert_eq!(ScriptBuffers::new().to_string(), "no buffers available");
}

#[test]
fn listing_shows_number_and_first_line() {
    let mut b = ScriptBuffers::new();
    b.add(s("print(1)\nprint(2)"));
    b.add(s(""));
    b.add(s("\r\nsecond"));
    assert_eq!(
        b.to_string(),
        "number  content\n1       print(1) ...\n2        ...\n3        ..."
    );
}

#[test]
fn listing_pads_the_number_to_eight() {
    let b = ScriptBuffers::restore(vec![(123456789, s("x"))], 123456790).unwrap();
    assert_eq!(b.to_string(), "number  content\n123456789x ...");
}

#[test]
fn full_when_the_numbers_run_out() {
    let b = ScriptBuffers::restore(vec![], u32::MAX).unwrap();
    assert!(b.is_full());
    assert!(!ScriptBuffers::new().is_full());
}

#[test]
fn restore_of_buffers_checks_the_numbering() {
    assert!(ScriptBuffers::restore(vec![(1, s("a")), (4, s("b"))], 5).is_some());
    assert!(ScriptBuffers::restore(vec![(1, s("a")), (4, s("b"))], 4).is_none());
    assert!(ScriptBuffers::restore(vec![(4, s("a")), (1, s("b"))], 5).is_none());
    assert!(ScriptBuffers::restore(vec![(0, s("a"))], 5).is_none());
    assert!(ScriptBuffers::restore(vec![], 0).is_none());
}

#[test]
fn buffers_round_trip_through_their_parts() {
    let mut b = ScriptBuffers::new();
    b.add(s("one"));
    b.add(s("two"));
    b.delete(1);
    b.add(s("three\nlines"));
    let (entries, next) = b.copy().into_parts();
    let again = ScriptBuffers::restore(entries, next).unwrap();
    assert_eq!(again.entries(), b.entries());
    assert_eq!(again.counter(), b.counter());
}
