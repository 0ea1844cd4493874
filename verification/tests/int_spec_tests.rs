use perry_codegen::hir::{BinaryOp, CompareOp, Expr, Function, Param, Stmt, Type};
use perry_codegen::int_spec::{emit_i64_function, is_integer_specializable};

fn ir(lines: &[&str]) -> String {
    let mut s = lines.join("\n");
    s.push('\n');
    s
}

fn local(id: u32) -> Expr {
    Expr::LocalGet(id)
}

fn bin(op: BinaryOp, l: Expr, r: Expr) -> Expr {
    Expr::Binary { op, left: Box::new(l), right: Box::new(r) }
}

fn call(id: u32, args: Vec<Expr>) -> Expr {
    Expr::Call { callee: Box::new(Expr::FuncRef(id)), args }
}

fn fib() -> Function {
    Function {
        id: 7,
        is_async: false,
        is_generator: false,
        return_type: Type::Number,
        params: vec![Param { id: 1, ty: Type::Number }],
        body: vec![
            Stmt::If {
                condition: Expr::Compare {
                    op: CompareOp::Lt,
                    left: Box::new(local(1)),
                    right: Box::new(Expr::Integer(2)),
                },
                then_branch: vec![Stmt::Return(Some(local(1)))],
                else_branch: None,
            },
            Stmt::Return(Some(bin(
                BinaryOp::Add,
                call(7, vec![bin(BinaryOp::Sub, local(1), Expr::Integer(1))]),
                call(7, vec![bin(BinaryOp::Sub, local(1), Expr::Number(2))]),
            ))),
        ],
    }
}

#[test]
fn fib_is_specializable() {
    assert!(is_integer_specializable(&fib()));
}

#[test]
fn fib_i64_ir() {
    let lf = emit_i64_function(&fib(), "fib_i64");
    assert_eq!(
        lf.to_ir(),
        ir(&[
            "define i64 @fib_i64(i64 %arg1) {",
            "entry.0:",
            "  %r1 = alloca i64",
            "  store i64 %arg1, ptr %r1",
            "  %r2 = load i64, ptr %r1",
            "  %r3 = icmp slt i64 %r2, 2",
            "  br i1 %r3, label %i64.then.1, label %i64.merge.2",
            "",
            "i64.then.1:",
            "  %r4 = load i64, ptr %r1",
            "  ret i64 %r4",
            "",
            "i64.merge.2:",
            "  %r5 = load i64, ptr %r1",
            "  %r6 = sub i64 %r5, 1",
            "  %r7 = call i64 @fib_i64(i64 %r6)",
            "  %r8 = load i64, ptr %r1",
            "  %r9 = sub i64 %r8, 2",
            "  %r10 = call i64 @fib_i64(i64 %r9)",
            "  %r11 = add i64 %r7, %r10",
            "  ret i64 %r11",
            "}",
        ])
    );
}

#[test]
fn if_else_falls_through_to_zero() {
    let g = Function {
        id: 3,
        is_async: false,
        is_generator: false,
        return_type: Type::Number,
        params: vec![Param { id: 1, ty: Type::Number }],
        body: vec![Stmt::If {
            condition: local(1),
            then_branch: vec![Stmt::Expr(local(1))],
            else_branch: Some(vec![Stmt::Return(Some(Expr::Integer(-3)))]),
        }],
    };
    assert!(is_integer_specializable(&g));
    let lf = emit_i64_function(&g, "g_i64");
    assert_eq!(
        lf.to_ir(),
        ir(&[
            "define i64 @g_i64(i64 %arg1) {",
            "entry.0:",
            "  %r1 = alloca i64",
            "  store i64 %arg1, ptr %r1",
            "  %r2 = load i64, ptr %r1",
            "  %r3 = icmp ne i64 %r2, 0",
            "  br i1 %r3, label %i64.then.1, label %i64.else.2",
            "",
            "i64.then.1:",
            "  br label %i64.merge.3",
            "",
            "i64.else.2:",
            "  ret i64 -3",
            "",
            "i64.merge.3:",
            "  ret i64 0",
            "}",
        ])
    );
}

#[test]
fn unhandled_forms_become_zero() {
    let h = Function {
        id: 9,
        is_async: false,
        is_generator: false,
        return_type: Type::Number,
        params: vec![],
        body: vec![
            Stmt::Let { id: 7, init: Some(Expr::Integer(i64::MIN)) },
            Stmt::Return(Some(bin(BinaryOp::Other, local(5), call(8, vec![local(5)])))),
            Stmt::Return(Some(Expr::Integer(1))),
        ],
    };
    assert!(!is_integer_specializable(&h));
    let lf = emit_i64_function(&h, "h_i64");
    assert_eq!(lf.to_ir(), "define i64 @h_i64() {\nentry.0:\n  ret i64 0\n}\n");
}

#[test]
fn negative_literals_and_min() {
    let k = Function {
        id: 1,
        is_async: false,
        is_generator: false,
        return_type: Type::Number,
        params: vec![Param { id: 4, ty: Type::Number }, Param { id: 5, ty: Type::Number }],
        body: vec![Stmt::Return(Some(bin(BinaryOp::Mul, local(5), Expr::Integer(i64::MIN))))],
    };
    let lf = emit_i64_function(&k, "k_i64");
    assert_eq!(
        lf.to_ir(),
        "define i64 @k_i64(i64 %arg4, i64 %arg5) {\nentry.0:\n  %r1 = alloca i64\n  store i64 %arg4, ptr %r1\n  %r2 = alloca i64\n  store i64 %arg5, ptr %r2\n  %r3 = load i64, ptr %r2\n  %r4 = mul i64 %r3, -9223372036854775808\n  ret i64 %r4\n}\n"
    );
}

#[test]
fn not_specializable() {
    let mut f = fib();
    f.is_async = true;
    assert!(!is_integer_specializable(&f));
    let mut f = fib();
    f.is_generator = true;
    assert!(!is_integer_specializable(&f));
    let mut f = fib();
    f.return_type = Type::Other;
    assert!(!is_integer_specializable(&f));
    let mut f = fib();
    f.params.push(Param { id: 2, ty: Type::Other });
    assert!(!is_integer_specializable(&f));
    let mut f = fib();
    f.body.push(Stmt::Other);
    assert!(!is_integer_specializable(&f));
    let mut f = fib();
    f.id = 8;
    assert!(!is_integer_specializable(&f));
    let mut f = fib();
    f.body.push(Stmt::Let { id: 3, init: None });
    f.body.push(Stmt::Return(None));
    assert!(is_integer_specializable(&f));
    let mut f = fib();
    f.body.push(Stmt::Expr(Expr::Conditional {
        condition: Box::new(local(1)),
        then_expr: Box::new(Expr::Integer(1)),
        else_expr: Box::new(Expr::Other),
    }));
    assert!(!is_integer_specializable(&f));
}

#[test]
fn every_block_of_i64_version_is_terminated() {
    let mut f = fib();
    f.body.insert(
        0,
        Stmt::If {
            condition: local(1),
            then_branch: vec![Stmt::If {
                condition: local(1),
                then_branch: vec![],
                else_branch: Some(vec![Stmt::Return(None)]),
            }],
            else_branch: Some(vec![]),
        },
    );
    let lf = emit_i64_function(&f, "fib2");
    assert_eq!(lf.num_blocks(), 9);
    assert!(lf.blocks().iter().all(|b| b.is_terminated()));
}
