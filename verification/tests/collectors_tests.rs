use std::collections::HashSet;

use perry_codegen::closures::{
    collect_closures_from_expr, collect_closures_from_stmts_into, collect_mutable_captures_from_stmts,
    collect_referenced_locals_stmts,
};
use perry_codegen::collectors::{
    collect_closures_in_expr, collect_closures_in_stmts, collect_integer_locals, collect_let_ids,
    collect_localset_ids_in_expr, collect_localset_ids_in_stmts, collect_ref_ids_in_expr, collect_ref_ids_in_stmts,
};
use perry_codegen::hir::{BinaryOp, CatchClause, Expr, OpKind, Stmt, SwitchCase};

fn set(ids: &[u32]) -> HashSet<u32> {
    ids.iter().copied().collect()
}

fn closure(captures: Vec<u32>, body: Vec<Stmt>) -> Expr {
    Expr::Closure {
        func_id: 9,
        params: vec![],
        body,
        captures,
        mutable_captures: vec![],
        captures_this: false,
        enclosing_class: None,
        is_async: false,
    }
}

#[test]
fn ref_ids_cover_reads_writes_updates_and_mutators() {
    let e = Expr::Op {
        kind: OpKind::Array,
        args: vec![
            Expr::LocalGet(1),
            Expr::LocalSet(2, Box::new(Expr::Update { id: 3 })),
            Expr::ArrayPush { array_id: 4, value: Box::new(Expr::Integer(0)) },
            Expr::ArrayPop(5),
            Expr::ArrayShift(6),
            Expr::SetAdd { set_id: 7, value: Box::new(Expr::LocalGet(8)) },
            Expr::ArraySplice {
                array_id: 10,
                start: Box::new(Expr::LocalGet(11)),
                delete_count: Some(Box::new(Expr::LocalGet(12))),
                items: vec![Expr::LocalGet(13)],
            },
            closure(vec![14], vec![Stmt::Return(Some(Expr::LocalGet(15)))]),
        ],
    };
    let mut out = set(&[100]);
    collect_ref_ids_in_expr(&e, &mut out);
    assert_eq!(out, set(&[100, 1, 2, 3, 4, 5, 6, 7, 8, 10, 11, 12, 13, 14, 15]));
}

#[test]
fn localset_ids_only_record_writes() {
    let e = Expr::Binary {
        op: BinaryOp::Add,
        left: Box::new(Expr::LocalSet(2, Box::new(Expr::LocalGet(1)))),
        right: Box::new(Expr::Op {
            kind: OpKind::Unary,
            args: vec![Expr::Update { id: 3 }],
        }),
    };
    let mut out = HashSet::new();
    collect_localset_ids_in_expr(&e, &mut out);
    assert_eq!(out, set(&[2]));
    let e2 = Expr::ArrayPush { array_id: 4, value: Box::new(closure(vec![5], vec![Stmt::Expr(Expr::LocalSet(6, Box::new(Expr::Other)))])) };
    collect_localset_ids_in_expr(&e2, &mut out);
    assert_eq!(out, set(&[2, 6]));
}

#[test]
fn statement_walkers_differ_on_try_switch_and_labels() {
    let w = |id: u32| Stmt::Expr(Expr::LocalSet(id, Box::new(Expr::Integer(1))));
    let stmts = vec![
        Stmt::Let { id: 1, init: Some(Expr::LocalGet(20)) },
        Stmt::While { condition: Expr::LocalGet(21), body: vec![w(2)] },
        Stmt::For {
            init: Some(Box::new(w(3))),
            condition: Some(Expr::LocalGet(22)),
            update: Some(Expr::Update { id: 23 }),
            body: vec![Stmt::Throw(Expr::LocalGet(24))],
        },
        Stmt::Try {
            body: vec![w(4)],
            catch: Some(CatchClause { body: vec![w(5)] }),
            finally: Some(vec![w(6)]),
        },
        Stmt::Switch {
            discriminant: Expr::LocalSet(7, Box::new(Expr::Other)),
            cases: vec![SwitchCase { test: Some(Expr::LocalSet(8, Box::new(Expr::Other))), body: vec![w(9)] }],
        },
        Stmt::Labeled { label: "outer".to_string(), body: Box::new(w(10)) },
    ];
    let mut refs = HashSet::new();
    collect_ref_ids_in_stmts(&stmts, &mut refs);
    assert_eq!(refs, set(&[20, 21, 2, 3, 22, 23, 24]));
    let mut sets = HashSet::new();
    collect_localset_ids_in_stmts(&stmts, &mut sets);
    assert_eq!(sets, set(&[2, 3, 4, 5, 6, 7, 8, 9, 10]));
}

fn nested_closures() -> Expr {
    let inner = Expr::Closure {
        func_id: 2,
        params: vec![],
        body: vec![],
        captures: vec![],
        mutable_captures: vec![],
        captures_this: false,
        enclosing_class: None,
        is_async: false,
    };
    let outer = Expr::Closure {
        func_id: 1,
        params: vec![],
        body: vec![Stmt::Return(Some(inner))],
        captures: vec![],
        mutable_captures: vec![],
        captures_this: false,
        enclosing_class: Some("C".to_string()),
        is_async: true,
    };
    Expr::Call { callee: Box::new(Expr::FuncRef(0)), args: vec![outer] }
}

#[test]
fn closures_are_recorded_once_in_walk_order() {
    let call = nested_closures();
    let mut seen = HashSet::new();
    let mut out = Vec::new();
    collect_closures_in_expr(&call, &mut seen, &mut out);
    let ids: Vec<u32> = out.iter().map(|p| p.0).collect();
    assert_eq!(ids, vec![1, 2]);
    assert!(matches!(out[0].1, Expr::Closure { func_id: 1, is_async: true, .. }));
    assert!(matches!(out[1].1, Expr::Closure { func_id: 2, is_async: false, .. }));
    assert_eq!(seen, set(&[1, 2]));

    // A second walk over the same code finds nothing new.
    let stmts = vec![Stmt::Expr(nested_closures())];
    let mut out2 = Vec::new();
    collect_closures_in_stmts(&stmts, &mut seen, &mut out2);
    assert!(out2.is_empty());

    // Closures under an operation the walker does not enter are missed.
    let hidden = Expr::Op { kind: OpKind::MathLog, args: vec![nested_closures()] };
    let mut seen3 = HashSet::new();
    let mut out3 = Vec::new();
    collect_closures_in_expr(&hidden, &mut seen3, &mut out3);
    assert!(out3.is_empty());
    let shown = Expr::Op { kind: OpKind::ArrayMap, args: vec![Expr::LocalGet(1), nested_closures()] };
    collect_closures_in_expr(&shown, &mut seen3, &mut out3);
    assert_eq!(out3.len(), 2);
}

#[test]
fn compiler_prepass_records_every_closure_with_its_fields() {
    let code = nested_closures();
    let mut found = Vec::new();
    collect_closures_from_expr(&code, &mut found, Some("Outer"));
    let ids: Vec<u32> = found.iter().map(|c| c.func_id).collect();
    assert_eq!(ids, vec![1, 2]);
    assert_eq!(found[0].enclosing_class.as_deref(), Some("C"));
    assert!(found[0].is_async);
    assert_eq!(found[0].body.len(), 1);
    assert_eq!(found[1].enclosing_class, &None);

    // No de-duplication: the same closure met twice is recorded twice.
    let twice = vec![Stmt::Expr(nested_closures()), Stmt::Throw(nested_closures())];
    let mut all = Vec::new();
    collect_closures_from_stmts_into(&twice, &mut all, None);
    assert_eq!(all.iter().map(|c| c.func_id).collect::<Vec<u32>>(), vec![1, 2, 1, 2]);

    // Element stores: only the array and the index are walked.
    let store = Expr::Op {
        kind: OpKind::Uint8ArraySet,
        args: vec![Expr::LocalGet(1), Expr::LocalGet(2), nested_closures()],
    };
    let mut none = Vec::new();
    collect_closures_from_expr(&store, &mut none, None);
    assert!(none.is_empty());

    // `do`/`while` bodies and labeled statements are not looked into.
    let skipped = vec![
        Stmt::DoWhile { body: vec![Stmt::Expr(nested_closures())], condition: Expr::Other },
        Stmt::Labeled { label: "l".to_string(), body: Box::new(Stmt::Expr(nested_closures())) },
    ];
    collect_closures_from_stmts_into(&skipped, &mut none, None);
    assert!(none.is_empty());
}

#[test]
fn walkers_skip_operations_they_do_not_know() {
    let mut out = HashSet::new();
    collect_ref_ids_in_expr(&Expr::Op { kind: OpKind::Yield, args: vec![Expr::LocalGet(1)] }, &mut out);
    collect_ref_ids_in_expr(&Expr::Op { kind: OpKind::GlobalSet, args: vec![Expr::LocalGet(2)] }, &mut out);
    assert!(out.is_empty());
    collect_ref_ids_in_expr(&Expr::Op { kind: OpKind::Uint8ArraySet, args: vec![Expr::LocalGet(1), Expr::LocalGet(2), Expr::LocalGet(3)] }, &mut out);
    assert_eq!(out, set(&[1, 2, 3]));
}

#[test]
fn let_ids_and_integer_locals() {
    let stmts = vec![
        Stmt::Let { id: 1, init: Some(Expr::Integer(0)) },
        Stmt::Let { id: 2, init: Some(Expr::Integer(5)) },
        Stmt::Let { id: 3, init: Some(Expr::Number(1)) },
        Stmt::For {
            init: Some(Box::new(Stmt::Let { id: 4, init: Some(Expr::Integer(0)) })),
            condition: None,
            update: Some(Expr::Update { id: 4 }),
            body: vec![Stmt::Expr(Expr::LocalSet(2, Box::new(Expr::Integer(7))))],
        },
        Stmt::Try {
            body: vec![Stmt::Let { id: 5, init: Some(Expr::Integer(1)) }],
            catch: None,
            finally: None,
        },
        Stmt::Expr(Expr::Closure {
            func_id: 1,
            params: vec![],
            body: vec![Stmt::Let { id: 6, init: Some(Expr::Integer(1)) }],
            captures: vec![],
            mutable_captures: vec![],
            captures_this: false,
            enclosing_class: None,
            is_async: false,
        }),
    ];
    let mut lets = HashSet::new();
    collect_let_ids(&stmts, &mut lets);
    assert_eq!(lets, set(&[1, 2, 3, 4]));
    // 2 is written by `LocalSet`; 3 starts as a non-integer; 6 is inside a closure.
    assert_eq!(collect_integer_locals(&stmts), set(&[1, 4, 5]));
}

#[test]
fn mutable_captures_of_nested_closures() {
    let inner = Expr::Closure {
        func_id: 2,
        params: vec![],
        body: vec![],
        captures: vec![7],
        mutable_captures: vec![8],
        captures_this: false,
        enclosing_class: None,
        is_async: false,
    };
    let outer = Expr::Closure {
        func_id: 1,
        params: vec![],
        body: vec![Stmt::Return(Some(inner))],
        captures: vec![],
        mutable_captures: vec![3, 4],
        captures_this: false,
        enclosing_class: None,
        is_async: false,
    };
    let stmts = vec![
        Stmt::Let { id: 9, init: Some(outer) },
        Stmt::Throw(Expr::Closure {
            func_id: 3,
            params: vec![],
            body: vec![],
            captures: vec![],
            mutable_captures: vec![10],
            captures_this: false,
            enclosing_class: None,
            is_async: false,
        }),
    ];
    // `throw` is not looked into.
    assert_eq!(collect_mutable_captures_from_stmts(&stmts), set(&[3, 4, 8]));
}

#[test]
fn referenced_locals_skip_closure_bodies() {
    let stmts = vec![
        Stmt::DoWhile { body: vec![Stmt::Expr(Expr::LocalSet(1, Box::new(Expr::LocalGet(2))))], condition: Expr::LocalGet(3) },
        Stmt::Labeled { label: "l".to_string(), body: Box::new(Stmt::Throw(Expr::Update { id: 4 })) },
        Stmt::Switch {
            discriminant: Expr::LocalGet(5),
            cases: vec![SwitchCase { test: Some(Expr::LocalGet(6)), body: vec![Stmt::Return(Some(Expr::LocalGet(7)))] }],
        },
        Stmt::Expr(closure(vec![8], vec![Stmt::Expr(Expr::LocalGet(9))])),
        Stmt::Expr(Expr::ArrayPush { array_id: 10, value: Box::new(Expr::LocalGet(11)) }),
        Stmt::Expr(Expr::Op { kind: OpKind::NewDynamic, args: vec![Expr::LocalGet(12), Expr::LocalGet(13)] }),
    ];
    let mut out = HashSet::new();
    collect_referenced_locals_stmts(&stmts, &mut out);
    assert_eq!(out, set(&[1, 2, 3, 4, 5, 6, 7, 12, 13]));
}

#[test]
fn every_written_local_is_a_referenced_local() {
    let e = Expr::Call {
        callee: Box::new(Expr::LocalSet(1, Box::new(Expr::LocalGet(2)))),
        args: vec![
            closure(vec![3], vec![Stmt::While { condition: Expr::LocalSet(4, Box::new(Expr::Other)), body: vec![] }]),
            Expr::Op { kind: OpKind::IndexSet, args: vec![Expr::LocalGet(5), Expr::Integer(0), Expr::LocalSet(6, Box::new(Expr::Other))] },
        ],
    };
    let mut refs = HashSet::new();
    collect_ref_ids_in_expr(&e, &mut refs);
    let mut sets = HashSet::new();
    collect_localset_ids_in_expr(&e, &mut sets);
    assert_eq!(sets, set(&[1, 4, 6]));
    assert!(sets.is_subset(&refs));
    assert_eq!(refs, set(&[1, 2, 3, 4, 5, 6]));
}
