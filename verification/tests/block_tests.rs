use perry_codegen::block::{format_args, LlBlock, RegCounter};
use perry_codegen::types::{DOUBLE, I1, I32, I64, PTR};

fn fresh() -> (LlBlock, RegCounter) {
    (LlBlock::new("entry.0"), RegCounter::new())
}

#[test]
fn fadd_emits_expected_ir() {
    let (mut b, mut regs) = fresh();
    let r = b.fadd(&mut regs, "1.0", "2.0");
    assert_eq!(r, "%r1");
    assert_eq!(b.to_ir(), "entry.0:\n  %r1 = fadd reassoc contract double 1.0, 2.0");
}

#[test]
fn call_with_args() {
    let (mut b, mut regs) = fresh();
    let r = b.call(&mut regs, DOUBLE, "js_nanbox_string", &[(I64, "%handle")]);
    assert_eq!(r, "%r1");
    assert!(b.to_ir().contains("call double @js_nanbox_string(i64 %handle)"));
}

#[test]
fn terminator_blocks_further_emits() {
    let (mut b, mut regs) = fresh();
    b.ret(DOUBLE, "0.0");
    // This would silently drop; we don't want extra lines after ret.
    let _ = b.fadd(&mut regs, "1.0", "2.0");
    let ir = b.to_ir();
    assert!(ir.contains("ret double 0.0"));
    assert!(!ir.contains("fadd"));
}

#[test]
fn regs_are_function_unique_not_block_unique() {
    let mut counter = RegCounter::new();
    let mut b1 = LlBlock::new("a");
    let mut b2 = LlBlock::new("b");
    let r1 = b1.fadd(&mut counter, "1.0", "2.0");
    let r2 = b2.fadd(&mut counter, "3.0", "4.0");
    assert_eq!(r1, "%r1");
    assert_eq!(r2, "%r2");
}

#[test]
fn counter_counts_from_one() {
    let mut c = RegCounter::new();
    assert_eq!(c.next(), 1);
    assert_eq!(c.next(), 2);
    assert_eq!(c.next(), 3);
    let mut d = RegCounter::default();
    assert_eq!(d.next(), 1);
}

#[test]
fn register_names_pass_ten() {
    let (mut b, mut regs) = fresh();
    let mut last = String::new();
    for _ in 0..12 {
        last = b.fresh_reg(&mut regs);
    }
    assert_eq!(last, "%r12");
    assert_eq!(b.next_reg(&mut regs), "%r13");
    assert_eq!(b.instruction_count(), 0);
}

#[test]
fn float_ops_text() {
    let (mut b, mut regs) = fresh();
    b.fsub(&mut regs, "%a", "%b");
    b.fmul(&mut regs, "%a", "%b");
    b.fdiv(&mut regs, "%a", "%b");
    b.frem(&mut regs, "%a", "%b");
    b.fneg(&mut regs, "%a");
    b.fcmp(&mut regs, "olt", "%a", "%b");
    assert_eq!(
        b.to_ir(),
        "entry.0:\n  %r1 = fsub reassoc contract double %a, %b\n  %r2 = fmul reassoc contract double %a, %b\n  %r3 = fdiv reassoc contract double %a, %b\n  %r4 = frem reassoc contract double %a, %b\n  %r5 = fneg reassoc contract double %a\n  %r6 = fcmp olt double %a, %b"
    );
}

#[test]
fn integer_compare_text() {
    let (mut b, mut regs) = fresh();
    b.icmp_eq(&mut regs, I64, "%a", "0");
    b.icmp_ne(&mut regs, I64, "%a", "0");
    b.icmp_slt(&mut regs, I32, "%a", "0");
    b.icmp_sgt(&mut regs, I32, "%a", "0");
    b.icmp_sle(&mut regs, I32, "%a", "0");
    b.icmp_ult(&mut regs, I64, "%a", "0");
    b.icmp_ule(&mut regs, I64, "%a", "0");
    b.icmp_ugt(&mut regs, I64, "%a", "0");
    b.icmp_sge(&mut regs, I64, "%a", "0");
    let ir = b.to_ir();
    assert_eq!(ir.lines().count(), 10);
    assert!(ir.contains("  %r1 = icmp eq i64 %a, 0\n"));
    assert!(ir.contains("  %r3 = icmp slt i32 %a, 0\n"));
    assert!(ir.ends_with("  %r9 = icmp sge i64 %a, 0"));
}

#[test]
fn integer_arith_text() {
    let (mut b, mut regs) = fresh();
    for (i, op) in ["add", "sub", "mul", "srem", "sdiv", "and", "or", "xor", "shl", "ashr", "lshr"]
        .iter()
        .enumerate()
    {
        let r = match *op {
            "add" => b.add(&mut regs, I64, "%x", "1"),
            "sub" => b.sub(&mut regs, I64, "%x", "1"),
            "mul" => b.mul(&mut regs, I64, "%x", "1"),
            "srem" => b.srem(&mut regs, I64, "%x", "1"),
            "sdiv" => b.sdiv(&mut regs, I64, "%x", "1"),
            "and" => b.and(&mut regs, I64, "%x", "1"),
            "or" => b.or(&mut regs, I64, "%x", "1"),
            "xor" => b.xor(&mut regs, I64, "%x", "1"),
            "shl" => b.shl(&mut regs, I64, "%x", "1"),
            "ashr" => b.ashr(&mut regs, I64, "%x", "1"),
            _ => b.lshr(&mut regs, I64, "%x", "1"),
        };
        assert_eq!(r, format!("%r{}", i + 1));
        assert!(b.to_ir().ends_with(&format!("  %r{} = {} i64 %x, 1", i + 1, op)));
    }
}

#[test]
fn memory_ops_text() {
    let (mut b, mut regs) = fresh();
    let slot = b.alloca(&mut regs, DOUBLE);
    b.store(DOUBLE, "1.0", &slot);
    b.load(&mut regs, DOUBLE, &slot);
    b.load_volatile(&mut regs, I64, "@g");
    b.store_volatile(I64, "7", "@g");
    b.load_invariant(&mut regs, I32, "%p");
    assert_eq!(
        b.to_ir(),
        "entry.0:\n  %r1 = alloca double\n  store double 1.0, ptr %r1\n  %r2 = load double, ptr %r1\n  %r3 = load volatile i64, ptr @g\n  store volatile i64 7, ptr @g\n  %r4 = load i32, ptr %p, !invariant.load !0"
    );
}

#[test]
fn conversions_text() {
    let (mut b, mut regs) = fresh();
    b.bitcast_i64_to_double(&mut regs, "%a");
    b.bitcast_double_to_i64(&mut regs, "%b");
    b.sitofp(&mut regs, I32, "%c", DOUBLE);
    b.uitofp(&mut regs, I32, "%c", DOUBLE);
    b.fptosi(&mut regs, DOUBLE, "%d", I64);
    b.trunc(&mut regs, I64, "%e", I32);
    b.zext(&mut regs, I1, "%f", I64);
    b.sext(&mut regs, I32, "%g", I64);
    b.inttoptr(&mut regs, I64, "%h");
    b.ptrtoint(&mut regs, "%p", I64);
    assert_eq!(
        b.to_ir(),
        "entry.0:\n  %r1 = bitcast i64 %a to double\n  %r2 = bitcast double %b to i64\n  %r3 = sitofp i32 %c to double\n  %r4 = uitofp i32 %c to double\n  %r5 = fptosi double %d to i64\n  %r6 = trunc i64 %e to i32\n  %r7 = zext i1 %f to i64\n  %r8 = sext i32 %g to i64\n  %r9 = inttoptr i64 %h to ptr\n  %r10 = ptrtoint ptr %p to i64"
    );
}

#[test]
fn toint32_guards_nan_and_infinity() {
    let (mut b, mut regs) = fresh();
    let r = b.toint32(&mut regs, "%v");
    assert_eq!(r, "%r7");
    assert_eq!(
        b.to_ir(),
        "entry.0:\n  %r1 = fcmp uno double %v, 0.0\n  %r2 = call double @llvm.fabs.f64(double %v)\n  %r3 = fcmp oeq double %r2, 0x7FF0000000000000\n  %r4 = or i1 %r1, %r3\n  %r5 = select i1 %r4, double 0.0, double %v\n  %r6 = fptosi double %r5 to i64\n  %r7 = trunc i64 %r6 to i32"
    );
}

#[test]
fn toint32_fast_text() {
    let (mut b, mut regs) = fresh();
    let r = b.toint32_fast(&mut regs, "%v");
    assert_eq!(r, "%r2");
    assert_eq!(b.to_ir(), "entry.0:\n  %r1 = fptosi double %v to i64\n  %r2 = trunc i64 %r1 to i32");
}

#[test]
fn safe_load_guards_small_pointers() {
    let (mut b, mut regs) = fresh();
    let r = b.safe_load_i32_from_ptr(&mut regs, "%h");
    assert_eq!(r, "%r4");
    assert_eq!(
        b.to_ir(),
        "entry.0:\n  %r1 = icmp ult i64 %h, 4096\n  %r2 = inttoptr i64 %h to ptr\n  %r3 = select i1 %r1, ptr @perry_null_guard_zero, ptr %r2\n  %r4 = load i32, ptr %r3, !invariant.load !0"
    );
}

#[test]
fn select_and_calls_text() {
    let (mut b, mut regs) = fresh();
    b.select(&mut regs, I1, "%c", DOUBLE, "1.0", "2.0");
    b.call_void("js_gc_init", &[]);
    b.call_void("f", &[(I64, "1"), (DOUBLE, "2.0")]);
    b.call_indirect(&mut regs, DOUBLE, "%fp", &[(I64, "%a"), (PTR, "%b")]);
    b.call_indirect(&mut regs, I64, "%fp", &[]);
    assert_eq!(
        b.to_ir(),
        "entry.0:\n  %r1 = select i1 %c, double 1.0, double 2.0\n  call void @js_gc_init()\n  call void @f(i64 1, double 2.0)\n  %r2 = call double (i64, ptr)* %fp(i64 %a, ptr %b)\n  %r3 = call i64 ()* %fp()"
    );
}

#[test]
fn gep_and_phi_text() {
    let (mut b, mut regs) = fresh();
    b.gep(&mut regs, I64, "%base", &[(I64, "0"), (I32, "2")]);
    b.gep_inbounds(&mut regs, DOUBLE, "%arr", &[(I64, "%i")]);
    b.phi(&mut regs, DOUBLE, &[("%x", "then.1"), ("%y", "else.2")]);
    assert_eq!(
        b.to_ir(),
        "entry.0:\n  %r1 = getelementptr i64, ptr %base, i64 0, i32 2\n  %r2 = getelementptr inbounds double, ptr %arr, i64 %i\n  %r3 = phi double [ %x, %then.1 ], [ %y, %else.2 ]"
    );
}

#[test]
fn terminators_text_and_flag() {
    let (mut b, _regs) = fresh();
    assert!(!b.is_terminated());
    b.cond_br("%c", "then.1", "else.2");
    assert!(b.is_terminated());
    b.br("merge.3");
    b.unreachable();
    b.ret_void();
    b.emit_raw("anything");
    assert_eq!(b.to_ir(), "entry.0:\n  br i1 %c, label %then.1, label %else.2");

    let mut c = LlBlock::new("x");
    c.emit_raw("call void @f()");
    c.br("y");
    assert_eq!(c.to_ir(), "x:\n  call void @f()\n  br label %y");

    let mut d = LlBlock::new("z");
    d.unreachable();
    assert!(d.is_terminated());
    assert_eq!(d.to_ir(), "z:\n  unreachable");

    let mut e = LlBlock::new("w");
    e.ret_void();
    assert_eq!(e.to_ir(), "w:\n  ret void");
}

#[test]
fn empty_block_and_instruction_list() {
    let (mut b, _regs) = fresh();
    assert_eq!(b.to_ir(), "entry.0:\n");
    assert_eq!(b.label(), "entry.0");
    b.emit_raw("a");
    b.emit_raw("b");
    let v: Vec<&str> = b.instructions_iter().iter().map(|s| s.as_str()).collect();
    assert_eq!(v, vec!["  a", "  b"]);
    assert_eq!(b.instruction_count(), 2);
}

#[test]
fn format_args_joins_typed_operands() {
    assert_eq!(format_args(&[]), "");
    assert_eq!(format_args(&[(I64, "%a")]), "i64 %a");
    assert_eq!(format_args(&[(I64, "%a"), (DOUBLE, "0.0"), (PTR, "@g")]), "i64 %a, double 0.0, ptr @g");
}

#[test]
fn instruction_count_sums_calls_until_the_terminator() {
    let (mut b, mut regs) = fresh();
    b.emit_raw("call void @f()");
    assert_eq!(b.instruction_count(), 1);
    let _ = b.fresh_reg(&mut regs);
    assert_eq!(b.instruction_count(), 1);
    let _ = b.toint32_fast(&mut regs, "%x");
    assert_eq!(b.instruction_count(), 3);
    let _ = b.safe_load_i32_from_ptr(&mut regs, "%h");
    assert_eq!(b.instruction_count(), 7);
    let _ = b.toint32(&mut regs, "%y");
    assert_eq!(b.instruction_count(), 14);
    // Terminator text written raw does not terminate the block.
    b.emit_raw("ret void");
    assert!(!b.is_terminated());
    assert_eq!(b.instruction_count(), 15);
    b.br("exit.1");
    assert!(b.is_terminated());
    assert_eq!(b.instruction_count(), 16);
    // Nothing changes once terminated.
    b.store(I64, "1", "%p");
    let _ = b.toint32(&mut regs, "%z");
    b.ret_void();
    assert!(b.is_terminated());
    assert_eq!(b.instruction_count(), 16);
}
