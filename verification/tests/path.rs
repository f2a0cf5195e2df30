use sq_common::dbg::SqLocalVarWithLvl;
use sq_common::path::{
    child, find_target, match_local_path, plan_examine, ExamineError, ExamineQuery, MAX_DEPTH,
};
use sq_common::sq::{DynSqVar, SqFloat, SqInstance, SqLocalVar};

fn s(text: &str) -> String {
    text.to_string()
}

fn key(text: &str) -> DynSqVar {
    DynSqVar::String(s(text))
}

fn path(text: &str) -> Vec<String> {
    text.split('.').map(|p| p.to_string()).collect()
}

fn local(name: &str, val: DynSqVar, lvl: u32) -> SqLocalVarWithLvl {
    SqLocalVarWithLvl { var: SqLocalVar { name: s(name), val }, lvl }
}

fn fixture() -> Vec<SqLocalVarWithLvl> {
    let this = DynSqVar::Table(vec![
        (key("name"), key("player")),
        (key("itemsArr"), DynSqVar::Array(vec![DynSqVar::Integer(42), DynSqVar::Integer(43)])),
    ]);
    vec![local("this", this, 2), local("count", DynSqVar::Integer(3), 2)]
}

#[test]
fn path_with_level_prefix_resolves_to_the_array_item() {
    let query = plan_examine("2.this.itemsArr.0", None, 1).unwrap();
    assert_eq!(query.level, Some(2));
    assert_eq!(query.root, "this");
    assert_eq!(query.rest, vec![s("itemsArr"), s("0")]);
    assert_eq!(query.depth, 3);
    let locals = fixture();
    assert_eq!(find_target(&locals, &query.root, &query.rest), Some(&DynSqVar::Integer(42)));
}

#[test]
fn plan_without_level_keeps_the_level_given() {
    let query = plan_examine("this.name", Some(4), 0).unwrap();
    assert_eq!(
        query,
        ExamineQuery {
            path: s("this.name"),
            level: Some(4),
            depth: 1,
            root: s("this"),
            rest: vec![s("name")]
        }
    );
    let bare = plan_examine("this", None, 2).unwrap();
    assert_eq!(
        bare,
        ExamineQuery { path: s("this"), level: None, depth: 2, root: s("this"), rest: vec![] }
    );
}

#[test]
fn plan_with_only_a_level_is_refused() {
    assert_eq!(plan_examine("3", None, 1), Err(ExamineError::LevelOnly));
    assert_eq!(plan_examine("+3", Some(1), 1), Err(ExamineError::LevelOnly));
}

#[test]
fn plan_depth_is_cut_at_the_maximum() {
    let query = plan_examine("a.b.c", None, MAX_DEPTH - 1).unwrap();
    assert_eq!(query.depth, MAX_DEPTH);
    let exact = plan_examine("a.b", None, MAX_DEPTH - 1).unwrap();
    assert_eq!(exact.depth, MAX_DEPTH);
}

#[test]
fn root_alone_is_the_variable_itself() {
    let locals = fixture();
    assert_eq!(find_target(&locals, &s("count"), &vec![]), Some(&DynSqVar::Integer(3)));
    assert_eq!(find_target(&locals, &s("missing"), &vec![]), None);
}

#[test]
fn first_full_match_wins_among_locals_of_one_name() {
    let locals = vec![
        local("v", DynSqVar::Table(vec![(key("a"), DynSqVar::Integer(1))]), 1),
        local("v", DynSqVar::Table(vec![(key("b"), DynSqVar::Integer(2))]), 2),
        local("v", DynSqVar::Table(vec![(key("b"), DynSqVar::Integer(3))]), 3),
    ];
    assert_eq!(find_target(&locals, &s("v"), &path("b")), Some(&DynSqVar::Integer(2)));
    assert_eq!(find_target(&locals, &s("v"), &path("c")), None);
}

#[test]
fn table_is_searched_by_string_and_by_integer_key() {
    let table = DynSqVar::Table(vec![
        (DynSqVar::Integer(7), key("by number")),
        (key("7"), key("by text")),
        (key("k"), DynSqVar::Bool(true)),
        (DynSqVar::Float(SqFloat::from_bits(0)), DynSqVar::Null),
    ]);
    assert_eq!(child(&table, &s("7")), Some(&key("by number")));
    assert_eq!(child(&table, &s("+7")), Some(&key("by number")));
    assert_eq!(child(&table, &s("k")), Some(&DynSqVar::Bool(true)));
    assert_eq!(child(&table, &s("8")), None);
    assert_eq!(child(&table, &s("")), None);
}

#[test]
fn string_key_that_writes_a_number_is_found_when_it_comes_first() {
    let table = DynSqVar::Class(vec![(key("7"), key("text")), (DynSqVar::Integer(7), key("n"))]);
    assert_eq!(child(&table, &s("7")), Some(&key("text")));
}

#[test]
fn instance_members_are_searched_like_a_table() {
    let obj = DynSqVar::Instance(SqInstance { this: vec![(key("hp"), DynSqVar::Integer(10))] });
    assert_eq!(match_local_path(&path("hp"), &obj), Some(&DynSqVar::Integer(10)));
}

#[test]
fn array_index_is_checked_against_the_bounds() {
    let arr = DynSqVar::Array(vec![DynSqVar::Integer(1), DynSqVar::Integer(2)]);
    assert_eq!(child(&arr, &s("0")), Some(&DynSqVar::Integer(1)));
    assert_eq!(child(&arr, &s("1")), Some(&DynSqVar::Integer(2)));
    assert_eq!(child(&arr, &s("2")), None);
    assert_eq!(child(&arr, &s("-1")), None);
    assert_eq!(child(&arr, &s("x")), None);
    assert_eq!(child(&arr, &s("4294967296")), None);
}

#[test]
fn scalars_have_no_children() {
    for v in [DynSqVar::Null, DynSqVar::Integer(1), DynSqVar::Bool(true), key("s"), DynSqVar::Closure] {
        assert_eq!(child(&v, &s("0")), None);
    }
}

#[test]
fn path_fails_where_a_segment_fails() {
    let root = DynSqVar::Table(vec![(
        key("a"),
        DynSqVar::Table(vec![(key("b"), DynSqVar::Array(vec![DynSqVar::Integer(5)]))]),
    )]);
    assert_eq!(match_local_path(&path("a.b.0"), &root), Some(&DynSqVar::Integer(5)));
    assert_eq!(match_local_path(&path("a.b.1"), &root), None);
    assert_eq!(match_local_path(&path("a.x.0"), &root), None);
    assert_eq!(match_local_path(&path("a.b.0.z"), &root), None);
    assert_eq!(match_local_path(&Vec::new(), &root), None);
}

#[test]
fn only_the_first_matching_entry_is_followed() {
    let root = DynSqVar::Table(vec![
        (key("a"), DynSqVar::Integer(1)),
        (key("a"), DynSqVar::Table(vec![(key("b"), DynSqVar::Integer(2))])),
    ]);
    assert_eq!(match_local_path(&path("a"), &root), Some(&DynSqVar::Integer(1)));
    assert_eq!(match_local_path(&path("a.b"), &root), None);
}

/// Follows a path with the iterators of the standard library.
fn follow_directly<'a>(path: &[String], root: &'a DynSqVar) -> Option<&'a DynSqVar> {
    let (key, rest) = path.split_first()?;
    let index: Option<i32> = key.parse().ok();
    let child = match root {
        DynSqVar::Table(map) | DynSqVar::Class(map) | DynSqVar::Instance(SqInstance { this: map }) => {
            map.iter()
                .find(|(k, _)| {
                    matches!((k, index), (DynSqVar::Integer(i), Some(idx)) if *i == idx)
                        || matches!(k, DynSqVar::String(s) if s == key)
                })
                .map(|(_, v)| v)
        }
        DynSqVar::Array(v) => match index {
            Some(idx) if idx >= 0 => v.get(idx as usize),
            _ => None,
        },
        _ => None,
    };
    match (child, rest.is_empty()) {
        (Some(_), true) => child,
        (Some(next), false) => follow_directly(rest, next),
        _ => None,
    }
}

#[test]
fn resolving_agrees_with_a_direct_reading_on_many_paths() {
    let root = DynSqVar::Table(vec![
        (key("a"), DynSqVar::Array(vec![DynSqVar::Integer(1), key("x"), DynSqVar::Null])),
        (DynSqVar::Integer(0), DynSqVar::Class(vec![(key("0"), DynSqVar::Bool(false))])),
        (key("0"), DynSqVar::Integer(5)),
        (key("a"), DynSqVar::Integer(6)),
        (
            key("obj"),
            DynSqVar::Instance(SqInstance {
                this: vec![(DynSqVar::Integer(-1), key("neg")), (key(""), key("empty"))],
            }),
        ),
    ]);
    let segments = ["a", "0", "1", "2", "3", "-1", "+0", "00", "obj", "", "x", "٣"];
    let mut paths: Vec<Vec<String>> = vec![vec![]];
    for a in segments {
        paths.push(vec![s(a)]);
        for b in segments {
            paths.push(vec![s(a), s(b)]);
            for c in ["0", "", "a"] {
                paths.push(vec![s(a), s(b), s(c)]);
            }
        }
    }
    for p in &paths {
        assert_eq!(match_local_path(p, &root), follow_directly(p, &root), "path {:?}", p);
    }
}
