use stmt_retention::ast::{Expr, Stmt};
use stmt_retention::marker::mark_stmt;
use stmt_retention::store::MarkStore;

fn pure(id: u64) -> Expr {
    Expr { id, has_side_effect: false }
}

fn call(id: u64) -> Expr {
    Expr { id, has_side_effect: true }
}

fn block(id: u64, stmts: Vec<Stmt>) -> Stmt {
    Stmt::Block { id, stmts }
}

fn run(s: &Stmt) -> MarkStore {
    let mut store = MarkStore::new();
    mark_stmt(&mut store, s);
    store
}

fn marked(store: &MarkStore, ids: &[u64]) -> Vec<bool> {
    ids.iter().map(|&i| store.is_marked(i)).collect()
}

#[test]
fn if_with_call_and_empty_else() {
    // if (cond) { f(); } else { }
    let s = Stmt::If {
        id: 1,
        test: pure(2),
        cons: Box::new(block(3, vec![Stmt::Expr { id: 4, expr: call(5) }])),
        alt: Some(Box::new(block(6, vec![]))),
    };
    let store = run(&s);
    assert!(store.is_marked(1));
    assert!(store.is_marked(3));
    assert!(store.is_marked(4));
    assert!(!store.is_marked(6));
}

#[test]
fn switch_case_with_break() {
    // switch (x) { case 1: helper(); break; }
    let s = Stmt::Switch {
        id: 1,
        discriminant: pure(2),
        cases: vec![Stmt::Case {
            id: 3,
            test: Some(pure(4)),
            cons: vec![Stmt::Expr { id: 5, expr: pure(6) }, Stmt::Break { id: 7, label: None }],
        }],
    };
    let store = run(&s);
    assert_eq!(marked(&store, &[7, 3, 1]), vec![true, true, true]);
    assert!(!store.is_marked(5));
}

#[test]
fn for_without_test_is_retained() {
    // for (;;) { }
    let s = Stmt::For { id: 1, init: None, test: None, update: None, body: Box::new(block(2, vec![])) };
    let store = run(&s);
    assert!(store.is_marked(1));
    assert!(!store.is_marked(2));
}

#[test]
fn for_with_false_test_depends_on_parts() {
    // for (let i = 0; i < 0; i++) { }
    let make = || Stmt::For {
        id: 1,
        init: Some(pure(2)),
        test: Some(pure(3)),
        update: Some(pure(4)),
        body: Box::new(block(5, vec![])),
    };
    let store = run(&make());
    assert!(!store.is_marked(1));
    for part in [2u64, 3, 4] {
        let mut store = MarkStore::new();
        store.mark(part);
        mark_stmt(&mut store, &make());
        assert!(store.is_marked(1));
        assert!(!store.is_marked(5));
    }
}

#[test]
fn debugger_alone_in_block() {
    let s = block(1, vec![Stmt::Debugger { id: 2 }]);
    let store = run(&s);
    assert!(store.is_marked(2));
    assert!(store.is_marked(1));
}

#[test]
fn bare_reference_alone_in_block() {
    // { x; }
    let s = block(1, vec![Stmt::Expr { id: 2, expr: pure(3) }]);
    let store = run(&s);
    assert!(!store.is_marked(2));
    assert!(!store.is_marked(1));
}

#[test]
fn call_statement_is_retained() {
    let s = Stmt::Expr { id: 1, expr: call(2) };
    assert!(run(&s).is_marked(1));
    let s = Stmt::Expr { id: 1, expr: pure(2) };
    assert!(!run(&s).is_marked(1));
}

#[test]
fn second_run_changes_nothing() {
    let s = block(
        1,
        vec![
            Stmt::While { id: 2, test: pure(3), body: Box::new(block(4, vec![Stmt::Expr { id: 5, expr: pure(6) }])) },
            Stmt::Labeled { id: 7, label: 8, body: Box::new(Stmt::Continue { id: 9, label: Some(8) }) },
            Stmt::Expr { id: 10, expr: pure(11) },
        ],
    );
    let ids: Vec<u64> = (0..12).collect();
    let mut store = MarkStore::new();
    mark_stmt(&mut store, &s);
    let first = marked(&store, &ids);
    mark_stmt(&mut store, &s);
    assert_eq!(marked(&store, &ids), first);
    assert_eq!(first, vec![false, true, false, false, false, false, false, true, false, true, false, false]);
}

#[test]
fn marks_are_never_removed() {
    let s = block(1, vec![Stmt::Expr { id: 2, expr: pure(3) }]);
    let mut store = MarkStore::new();
    store.mark(1);
    store.mark(40);
    mark_stmt(&mut store, &s);
    assert!(store.is_marked(1));
    assert!(store.is_marked(40));
    // an already marked node is not analysed again
    assert!(!store.is_marked(2));
}

#[test]
fn terminals_retained_in_dead_context() {
    let s = Stmt::While {
        id: 1,
        test: pure(2),
        body: Box::new(block(3, vec![Stmt::Expr { id: 4, expr: pure(5) }, Stmt::Continue { id: 6, label: None }])),
    };
    let store = run(&s);
    assert_eq!(marked(&store, &[6, 3, 1]), vec![true, true, true]);
    assert!(!store.is_marked(4));
    let s = block(10, vec![Stmt::Break { id: 11, label: Some(12) }]);
    assert_eq!(marked(&run(&s), &[11, 10]), vec![true, true]);
}

#[test]
fn with_body_is_not_visited() {
    let s = Stmt::With { id: 1, object: pure(2), body: Box::new(block(3, vec![Stmt::Expr { id: 4, expr: call(5) }])) };
    let store = run(&s);
    assert!(store.is_marked(1));
    assert!(!store.is_marked(3));
    assert!(!store.is_marked(4));
}

#[test]
fn infinite_for_with_dead_body() {
    let s = Stmt::For {
        id: 1,
        init: None,
        test: None,
        update: None,
        body: Box::new(block(2, vec![Stmt::Expr { id: 3, expr: pure(4) }])),
    };
    let store = run(&s);
    assert!(store.is_marked(1));
    assert!(!store.is_marked(2));
    assert!(!store.is_marked(3));
}

#[test]
fn block_with_break_is_retained() {
    let s = block(1, vec![Stmt::Expr { id: 2, expr: pure(3) }, Stmt::Break { id: 4, label: None }]);
    let store = run(&s);
    assert!(store.is_marked(1));
    assert!(!store.is_marked(2));
}

#[test]
fn switch_keeps_every_case_in_the_tree() {
    let s = Stmt::Switch {
        id: 1,
        discriminant: pure(2),
        cases: vec![
            Stmt::Case { id: 3, test: Some(pure(4)), cons: vec![Stmt::Continue { id: 5, label: None }] },
            Stmt::Case { id: 6, test: None, cons: vec![Stmt::Expr { id: 7, expr: pure(8) }] },
        ],
    };
    let store = run(&s);
    assert_eq!(marked(&store, &[1, 3, 5, 6, 7]), vec![true, true, true, false, false]);
    if let Stmt::Switch { cases, .. } = &s {
        assert_eq!(cases.len(), 2);
    }
}

#[test]
fn switch_with_marked_discriminant() {
    let s = Stmt::Switch { id: 1, discriminant: pure(2), cases: vec![] };
    assert!(!run(&s).is_marked(1));
    let mut store = MarkStore::new();
    store.mark(2);
    mark_stmt(&mut store, &s);
    assert!(store.is_marked(1));
}

#[test]
fn case_with_marked_test() {
    let s = Stmt::Case { id: 1, test: Some(pure(2)), cons: vec![Stmt::Expr { id: 3, expr: pure(4) }] };
    assert!(!run(&s).is_marked(1));
    let mut store = MarkStore::new();
    store.mark(2);
    mark_stmt(&mut store, &s);
    assert!(store.is_marked(1));
    assert!(!store.is_marked(3));
}

#[test]
fn return_and_throw_always_retained() {
    let s = block(1, vec![Stmt::Return { id: 2, arg: None }]);
    assert_eq!(marked(&run(&s), &[1, 2]), vec![true, true]);
    let s = block(1, vec![Stmt::Throw { id: 2, arg: pure(3) }]);
    let store = run(&s);
    assert_eq!(marked(&store, &[1, 2, 3]), vec![true, true, false]);
}

#[test]
fn labeled_follows_its_body() {
    let s = Stmt::Labeled { id: 1, label: 2, body: Box::new(Stmt::Expr { id: 3, expr: pure(4) }) };
    assert!(!run(&s).is_marked(1));
    let s = Stmt::Labeled { id: 1, label: 2, body: Box::new(Stmt::Expr { id: 3, expr: call(4) }) };
    assert!(run(&s).is_marked(1));
}

#[test]
fn try_retained_by_any_part() {
    let make = |h: Stmt| Stmt::Try {
        id: 1,
        block: Box::new(block(2, vec![])),
        handler: Some(Box::new(h)),
        finalizer: Some(Box::new(block(3, vec![]))),
    };
    let store = run(&make(block(4, vec![])));
    assert!(!store.is_marked(1));
    let store = run(&make(block(4, vec![Stmt::Throw { id: 5, arg: pure(6) }])));
    assert_eq!(marked(&store, &[1, 2, 3, 4, 5]), vec![true, false, false, true, true]);
    let s = Stmt::Try {
        id: 1,
        block: Box::new(block(2, vec![])),
        handler: None,
        finalizer: Some(Box::new(block(3, vec![Stmt::Debugger { id: 7 }]))),
    };
    assert_eq!(marked(&run(&s), &[1, 3, 7]), vec![true, true, true]);
}

#[test]
fn while_and_do_while_by_test_or_body() {
    let mut store = MarkStore::new();
    store.mark(2);
    let s = Stmt::While { id: 1, test: pure(2), body: Box::new(block(3, vec![])) };
    mark_stmt(&mut store, &s);
    assert!(store.is_marked(1));
    assert!(!store.is_marked(3));
    let s = Stmt::DoWhile { id: 1, test: pure(2), body: Box::new(block(3, vec![])) };
    assert!(!run(&s).is_marked(1));
    let s = Stmt::DoWhile {
        id: 1,
        test: pure(2),
        body: Box::new(block(3, vec![Stmt::Expr { id: 4, expr: call(5) }])),
    };
    assert_eq!(marked(&run(&s), &[1, 3, 4]), vec![true, true, true]);
}

#[test]
fn for_in_and_for_of_by_parts() {
    let s = Stmt::ForIn { id: 1, left: pure(2), right: pure(3), body: Box::new(block(4, vec![])) };
    assert!(!run(&s).is_marked(1));
    let mut store = MarkStore::new();
    store.mark(3);
    mark_stmt(&mut store, &s);
    assert!(store.is_marked(1));
    let s = Stmt::ForOf { id: 1, left: pure(2), right: pure(3), body: Box::new(block(4, vec![])) };
    assert!(!run(&s).is_marked(1));
    let mut store = MarkStore::new();
    store.mark(2);
    mark_stmt(&mut store, &s);
    assert!(store.is_marked(1));
    assert!(!store.is_marked(4));
}

#[test]
fn if_retained_by_marked_test() {
    let s = Stmt::If { id: 1, test: pure(2), cons: Box::new(block(3, vec![])), alt: None };
    assert!(!run(&s).is_marked(1));
    let mut store = MarkStore::new();
    store.mark(2);
    mark_stmt(&mut store, &s);
    assert!(store.is_marked(1));
    assert!(!store.is_marked(3));
}

#[test]
fn statement_ids() {
    assert_eq!(Stmt::Debugger { id: 9 }.id(), 9);
    assert_eq!(block(4, vec![]).id(), 4);
    assert_eq!(Stmt::For { id: 3, init: None, test: None, update: None, body: Box::new(block(1, vec![])) }.id(), 3);
}
