use std::rc::Rc;

use ant_link::generics::NamedTable;
use ant_link::state::{FunctionState, PushGetGeneric};

type State = FunctionState<Vec<u32>, String>;

#[test]
fn leaving_undoes_entering() {
    let mut s = State::new();
    let outermost = Rc::clone(&s.table);
    assert!(s.leave_scope().is_none());
    assert!(Rc::ptr_eq(&s.table, &outermost));
    s.enter_scope();
    let inner = Rc::clone(&s.table);
    assert!(inner.outer.is_some());
    assert!(Rc::ptr_eq(inner.outer.as_ref().unwrap(), &outermost));
    let left = s.leave_scope().unwrap();
    assert!(Rc::ptr_eq(&left, &inner));
    assert!(Rc::ptr_eq(&s.table, &outermost));
}

#[test]
fn scopes_nest() {
    let mut s = State::new();
    s.enter_scope();
    s.enter_scope();
    assert!(s.leave_scope().is_some());
    assert!(s.leave_scope().is_some());
    assert!(s.leave_scope().is_none());
}

#[test]
fn scopes_keep_generics() {
    let mut s = State::new();
    s.push_generic("T".to_string(), vec![1]);
    s.enter_scope();
    assert_eq!(s.get_generic("T"), Some(vec![1]));
    s.leave_scope();
    assert_eq!(s.get_generic("T"), Some(vec![1]));
}

#[test]
fn generic_read_after_write() {
    let mut s = State::new();
    assert_eq!(s.get_generic("T"), None);
    s.push_generic("T".to_string(), vec![1, 2]);
    s.push_generic("U".to_string(), vec![3]);
    assert_eq!(s.get_generic("T"), Some(vec![1, 2]));
    s.push_generic("T".to_string(), vec![9]);
    assert_eq!(s.get_generic("T"), Some(vec![9]));
    assert_eq!(s.get_generic("U"), Some(vec![3]));
    assert_eq!(s.get_compiled_generic("T"), None);
}

#[test]
fn generic_changed_in_place() {
    let mut s = State::new();
    assert!(s.get_mut_generic("T").is_none());
    s.push_generic("T".to_string(), vec![1]);
    s.get_mut_generic("T").unwrap().push(5);
    assert_eq!(s.get_generic("T"), Some(vec![1, 5]));
}

#[test]
fn compiled_generic_read_after_write() {
    let mut s = State::new();
    s.push_compiled_generic("max<i32>".to_string(), "max_i32".to_string());
    assert_eq!(s.get_compiled_generic("max<i32>").map(|c| c.as_str()), Some("max_i32"));
    s.push_compiled_generic("max<i32>".to_string(), "max_i32_v2".to_string());
    assert_eq!(s.get_compiled_generic("max<i32>").map(|c| c.as_str()), Some("max_i32_v2"));
    assert_eq!(s.get_compiled_generic("max<i64>"), None);
    assert_eq!(s.get_generic("max<i32>"), None);
}

#[test]
fn named_table_basics() {
    let mut t: NamedTable<u8> = NamedTable::new();
    assert_eq!(t.get("a"), None);
    t.insert("a".to_string(), 1);
    t.insert("b".to_string(), 2);
    t.insert("a".to_string(), 3);
    assert_eq!(t.get("a"), Some(&3));
    assert_eq!(t.get("b"), Some(&2));
    *t.get_mut("b").unwrap() = 7;
    assert_eq!(t.get("b"), Some(&7));
    assert_eq!(t.get("ab"), None);
}

#[test]
fn depth_law_over_a_chain_of_scopes() {
    let mut s = State::new();
    let outermost = Rc::clone(&s.table);
    s.enter_scope();
    s.enter_scope();
    // depth 3 now; two more enters make 5
    s.enter_scope();
    s.enter_scope();
    for _ in 0..4 {
        assert!(s.leave_scope().is_some());
    }
    assert!(Rc::ptr_eq(&s.table, &outermost));
    assert!(s.leave_scope().is_none());
    assert!(s.leave_scope().is_none());
    assert!(Rc::ptr_eq(&s.table, &outermost));
}

#[test]
fn reads_leave_the_state_unchanged() {
    let mut s = State::new();
    s.enter_scope();
    let table = Rc::clone(&s.table);
    s.push_generic("T".to_string(), vec![1]);
    s.push_compiled_generic("T".to_string(), "t".to_string());
    assert!(Rc::ptr_eq(&s.table, &table));
    assert_eq!(s.get_generic("T"), Some(vec![1]));
    assert_eq!(s.get_generic("T"), Some(vec![1]));
    assert_eq!(s.get_compiled_generic("T").cloned(), Some("t".to_string()));
    assert_eq!(s.get_compiled_generic("T").cloned(), Some("t".to_string()));
    assert!(Rc::ptr_eq(&s.table, &table));
}

#[test]
fn get_generic_after_push_gives_the_pushed_item() {
    let mut s: FunctionState<u64, u64> = FunctionState::new();
    s.push_generic("n".to_string(), 7);
    assert_eq!(s.get_generic("n"), Some(7));
    assert_eq!(s.get_generic("m"), None);
}
