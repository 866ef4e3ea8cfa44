use grasshopper::lazy_value::{
    same_text, DecodeError, LazyStr, LazyValue, LazyValueKind, LazyValueVisitor,
};
use std::rc::Rc;

fn visitor(document: &str) -> LazyValueVisitor {
    LazyValueVisitor(Rc::new(document.to_string()))
}

fn at(text: &str, start: usize) -> (String, usize) {
    (text.to_string(), start)
}

#[test]
fn texts_compare_by_what_they_say() {
    assert!(same_text("abc", "abc"));
    assert!(!same_text("abc", "abd"));
    assert!(!same_text("abc", "ab"));
    assert!(same_text("", ""));
}

#[test]
fn a_stretch_reads_as_its_part_of_the_document() {
    let s = LazyStr::Reused { origin: Rc::new("{\"k\u{e9}y\":[1,2]}".to_string()), range: 2..6 };
    assert_eq!(s.as_str(), "k\u{e9}y");
    let whole = LazyStr::Reused { origin: Rc::new("abc".to_string()), range: 0..3 };
    assert_eq!(whole.as_str(), "abc");
    let empty = LazyStr::Reused { origin: Rc::new("abc".to_string()), range: 3..3 };
    assert_eq!(empty.as_str(), "");
    assert_eq!(LazyStr::Owned("own".to_string()).as_str(), "own");
}

#[test]
fn texts_are_equal_wherever_they_are_kept() {
    let shared = LazyStr::Reused { origin: Rc::new("xxabcxx".to_string()), range: 2..5 };
    let owned = LazyStr::Owned("abc".to_string());
    assert!(shared.same_as(&owned));
    assert!(!shared.same_as(&LazyStr::Owned("abd".to_string())));
    assert_eq!(shared.share().as_str(), "abc");
}

#[test]
fn reuse_shares_the_document_where_the_text_stands_in_it() {
    let v = visitor("[10,\"two\"]");
    match v.reuse("10", 1) {
        LazyStr::Reused { origin, range } => {
            assert!(Rc::ptr_eq(&origin, &v.0));
            assert_eq!(range, 1..3);
        },
        other => panic!("expected a shared text, got {:?}", other),
    }
    assert_eq!(v.reuse("\"two\"", 4).as_str(), "\"two\"");
    assert!(matches!(v.reuse("", 10), LazyStr::Reused { .. }));
    let accented = visitor("[\"\u{e9}t\u{e9}\"]");
    match accented.reuse("\u{e9}t\u{e9}", 2) {
        LazyStr::Reused { range, .. } => assert_eq!(range, 2..7),
        other => panic!("expected a shared text, got {:?}", other),
    }
    assert_eq!(accented.reuse("t\u{e9}", 4).as_str(), "t\u{e9}");
}

#[test]
fn reuse_does_not_cut_a_character_in_two() {
    let v = visitor("\u{e9}");
    assert!(matches!(v.reuse("", 0), LazyStr::Reused { .. }));
    assert!(matches!(v.reuse("", 2), LazyStr::Reused { .. }));
    match v.reuse("", 1) {
        LazyStr::Owned(copy) => assert_eq!(copy, ""),
        other => panic!("expected a copy, got {:?}", other),
    }
}

#[test]
fn reuse_copies_what_does_not_stand_there() {
    let v = visitor("[10,\"two\"]");
    for (text, start) in [("10", 2), ("11", 1), ("two\"]x", 5), ("x", 10), ("x", usize::MAX), ("", 11)] {
        match v.reuse(text, start) {
            LazyStr::Owned(copy) => assert_eq!(copy, text),
            other => panic!("expected a copy, got {:?}", other),
        }
    }
}

#[test]
fn kinds_have_their_numbers() {
    assert_eq!(LazyValueKind::Null.code(), 0);
    assert_eq!(LazyValueKind::Bool.code(), 1);
    assert_eq!(LazyValueKind::Number.code(), 2);
    assert_eq!(LazyValueKind::String.code(), 3);
    assert_eq!(LazyValueKind::Array.code(), 4);
    assert_eq!(LazyValueKind::Object.code(), 5);
}

#[test]
fn scalars_know_their_kind_and_value() {
    let v = visitor("true");
    assert_eq!(v.visit_unit().kind(), LazyValueKind::Null);
    let t = v.visit_bool(true);
    assert_eq!(t.kind(), LazyValueKind::Bool);
    assert!(t.as_bool());
    assert!(!v.visit_bool(false).as_bool());
    let n = v.visit_number(1.5f64.to_bits());
    assert_eq!(n.kind(), LazyValueKind::Number);
    assert_eq!(f64::from_bits(n.as_number()), 1.5);
}

#[test]
fn strings_are_kept_as_stretches() {
    let v = visitor("\"hello\"");
    let s = v.visit_str("hello", 1);
    assert_eq!(s.kind(), LazyValueKind::String);
    assert_eq!(s.as_string(), "hello");
    assert!(matches!(s, LazyValue::String(LazyStr::Reused { .. })));
    let unescaped = v.visit_str("a\nb", 1);
    assert_eq!(unescaped.as_string(), "a\nb");
    assert!(matches!(unescaped, LazyValue::String(LazyStr::Owned(_))));
}

#[test]
fn detached_strings_are_refused() {
    let v = visitor("\"x\"");
    assert_eq!(v.visit_string("x".to_string()).err(), Some(DecodeError::DetachedString));
}

#[test]
fn arrays_keep_the_text_of_their_elements() {
    let v = visitor("[1, {\"a\":2}, \"x\"]");
    let a = v.visit_seq(&vec![at("1", 1), at("{\"a\":2}", 4), at("\"x\"", 13)]);
    assert_eq!(a.kind(), LazyValueKind::Array);
    assert_eq!(a.get_array_length(), 3);
    assert_eq!(a.get_array_element(0), "1");
    assert_eq!(a.get_array_element(1), "{\"a\":2}");
    assert_eq!(a.get_array_element(2), "\"x\"");
    let empty = v.visit_seq(&Vec::new());
    assert_eq!(empty.get_array_length(), 0);
}

#[test]
fn objects_find_their_members_by_key() {
    let v = visitor("{\"a\":1,\"b\":[2]}");
    let o = v.visit_map(&vec![(at("a", 2), at("1", 5)), (at("b", 8), at("[2]", 11))]);
    assert_eq!(o.kind(), LazyValueKind::Object);
    assert_eq!(o.get_object_length(), 2);
    assert!(o.has_object_element("a"));
    assert!(o.has_object_element("b"));
    assert!(!o.has_object_element("c"));
    assert!(!o.has_object_element(""));
    assert_eq!(o.get_object_element_str("a"), "1");
    assert_eq!(o.get_object_element_str("b"), "[2]");
}

#[test]
fn a_repeated_key_keeps_its_place_and_takes_the_last_value() {
    let v = visitor("{\"a\":1,\"b\":2,\"a\":3}");
    let o = v.visit_map(&vec![(at("a", 2), at("1", 5)), (at("b", 8), at("2", 11)), (at("a", 14), at("3", 17))]);
    assert_eq!(o.get_object_length(), 2);
    assert_eq!(o.get_object_element_str("a"), "3");
    let mut it = o.iter_elements();
    let mut first = it.next_pair();
    assert_eq!(first.pair_key().as_string(), "a");
    assert_eq!(first.pair_value().as_str(), "3");
    let mut second = it.next_pair();
    assert_eq!(second.pair_key().as_string(), "b");
    assert_eq!(second.pair_value().as_str(), "2");
    assert!(!it.has_next());
}

#[test]
fn the_iterator_walks_the_members_in_order() {
    let v = visitor("{\"x\":1,\"y\":2,\"z\":3}");
    let o = v.visit_map(&vec![(at("x", 2), at("1", 5)), (at("y", 8), at("2", 11)), (at("z", 14), at("3", 17))]);
    let mut it = o.iter_elements();
    let mut seen = Vec::new();
    while it.has_next() {
        let mut pair = it.next_pair();
        let key = pair.pair_key().as_string().to_string();
        seen.push((key, pair.pair_value().as_str().to_string()));
    }
    assert_eq!(
        seen,
        vec![
            ("x".to_string(), "1".to_string()),
            ("y".to_string(), "2".to_string()),
            ("z".to_string(), "3".to_string())
        ]
    );
    let empty = v.visit_map(&Vec::new());
    assert!(!empty.iter_elements().has_next());
    assert_eq!(empty.get_object_length(), 0);
}
