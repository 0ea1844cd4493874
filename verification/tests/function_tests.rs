use perry_codegen::function::LlFunction;
use perry_codegen::types::{DOUBLE, I32, I64, PTR, VOID};

#[test]
fn simple_function_ir() {
    let mut f = LlFunction::new("main", DOUBLE, vec![(I64, "%a".to_string()), (DOUBLE, "%b".to_string())]);
    let b = f.create_block("entry");
    assert_eq!(b.label, "entry.0");
    {
        let (blk, regs) = f.block_with_regs(0);
        let r = blk.fadd(regs, "%b", "1.0");
        blk.ret(DOUBLE, &r);
    }
    assert_eq!(
        f.to_ir(),
        "define double @main(i64 %a, double %b) {\nentry.0:\n  %r1 = fadd reassoc contract double %b, 1.0\n  ret double %r1\n}\n"
    );
}

#[test]
fn blocks_are_separated_and_labels_numbered() {
    let mut f = LlFunction::new("f", VOID, vec![]);
    f.linkage = "internal".to_string();
    f.force_inline = true;
    f.create_block("entry").br("next.1");
    f.create_block("next").ret_void();
    assert_eq!(f.num_blocks(), 2);
    assert_eq!(f.last_block_label(), Some("next.1"));
    assert_eq!(
        f.to_ir(),
        "define internal void @f() alwaysinline {\nentry.0:\n  br label %next.1\n\nnext.1:\n  ret void\n}\n"
    );
    f.has_try = true;
    assert!(f.to_ir().starts_with("define internal void @f() #1 {\n"));
}

#[test]
fn same_name_blocks_get_distinct_labels() {
    let mut f = LlFunction::new("g", VOID, vec![]);
    for _ in 0..12 {
        f.create_block("if.then");
    }
    let labels: Vec<String> = f.blocks().iter().map(|b| b.label.clone()).collect();
    assert_eq!(labels[0], "if.then.0");
    assert_eq!(labels[11], "if.then.11");
    for i in 0..labels.len() {
        for j in 0..i {
            assert_ne!(labels[i], labels[j]);
        }
    }
}

#[test]
fn empty_function_has_no_body() {
    let mut f = LlFunction::new("h", I64, vec![]);
    assert_eq!(f.last_block_label(), None);
    f.alloca_entry(I64);
    assert_eq!(f.to_ir(), "define i64 @h() {\n}\n");
    assert!(f.block_mut(0).is_none());
}

#[test]
fn entry_allocas_go_first_and_post_init_at_boundary() {
    let mut f = LlFunction::new("main", I32, vec![]);
    f.create_block("entry").call_void("js_gc_init", &[]);
    f.mark_entry_init_boundary();
    let slot = f.alloca_entry(I64);
    assert_eq!(slot, "%r1");
    let g = f.entry_init_load_global("g", I64);
    assert_eq!(g, "%r2");
    f.block_mut(0).unwrap().ret(I32, "0");
    assert_eq!(
        f.to_ir(),
        "define i32 @main() {\nentry.0:\n  %r1 = alloca i64\n  %r2 = alloca i64\n  call void @js_gc_init()\n  %r3 = load i64, ptr @g\n  store i64 %r3, ptr %r2\n  ret i32 0\n}\n"
    );
}

#[test]
fn global_load_without_boundary_is_hoisted_with_alloca() {
    let mut f = LlFunction::new("k", VOID, vec![]);
    f.create_block("entry").ret_void();
    let slot = f.entry_init_load_global("k", DOUBLE);
    assert_eq!(slot, "%r1");
    assert_eq!(
        f.to_ir(),
        "define void @k() {\nentry.0:\n  %r1 = alloca double\n  %r2 = load double, ptr @k\n  store double %r2, ptr %r1\n  ret void\n}\n"
    );
}

#[test]
fn boundary_past_end_is_capped() {
    let mut f = LlFunction::new("m", VOID, vec![]);
    f.create_block("entry").emit_raw("call void @a()");
    f.mark_entry_init_boundary();
    f.entry_init_load_global("q", I64);
    {
        let (blk, regs) = f.block_with_regs(0);
        blk.call_void("b", &[]);
        blk.fresh_reg(regs);
    }
    assert_eq!(
        f.to_ir(),
        "define void @m() {\nentry.0:\n  %r1 = alloca i64\n  call void @a()\n  %r2 = load i64, ptr @q\n  store i64 %r2, ptr %r1\n  call void @b()\n}\n"
    );
}

#[test]
fn entry_helpers_text() {
    let mut f = LlFunction::new("n", VOID, vec![]);
    f.create_block("entry");
    let arr = f.alloca_entry_array(I32, 4);
    assert_eq!(arr, "%r1");
    f.entry_allocas_push_store(I64, "0", "%r1");
    let p = f.entry_init_call_ptr("arena_state");
    assert_eq!(p, "%r2");
    assert_eq!(
        f.to_ir(),
        "define void @n() {\nentry.0:\n  %r1 = alloca [4 x i32]\n  store i64 0, ptr %r1\n  %r2 = alloca ptr\n  %r3 = call ptr @arena_state()\n  store ptr %r3, ptr %r2\n}\n"
    );
}

#[test]
fn shadow_frame_pops_before_every_ret() {
    let mut f = LlFunction::new("main", I32, vec![]);
    f.create_block("entry").cond_br("%c", "a.1", "b.2");
    f.create_block("a").ret(I32, "1");
    f.create_block("b").ret(PTR, "%p");
    f.create_block("c").emit_raw("\tret i32 2");
    f.enable_shadow_frame(3);
    f.enable_shadow_frame(5);
    assert_eq!(
        f.to_ir(),
        "define i32 @main() {\nentry.0:\n  %r1 = alloca i64\n  %r2 = call i64 @js_shadow_frame_push(i32 3)\n  store i64 %r2, ptr %r1\n  br i1 %c, label %a.1, label %b.2\n\na.1:\n  %shadow_pop_l_0 = load i64, ptr %r1\n  call void @js_shadow_frame_pop(i64 %shadow_pop_l_0)\n  ret i32 1\n\nb.2:\n  %shadow_pop_l_1 = load i64, ptr %r1\n  call void @js_shadow_frame_pop(i64 %shadow_pop_l_1)\n  ret ptr %p\n\nc.3:\n  %shadow_pop_l_2 = load i64, ptr %r1\n  call void @js_shadow_frame_pop(i64 %shadow_pop_l_2)\n  \tret i32 2\n}\n"
    );
}

#[test]
fn shadow_rewrite_normalises_crlf() {
    let mut f = LlFunction::new("v", VOID, vec![]);
    f.create_block("entry").emit_raw("call void @x()\r");
    f.block_mut(0).unwrap().ret_void();
    f.enable_shadow_frame(0);
    assert_eq!(
        f.to_ir(),
        "define void @v() {\nentry.0:\n  %r1 = alloca i64\n  %r2 = call i64 @js_shadow_frame_push(i32 0)\n  store i64 %r2, ptr %r1\n  call void @x()\n  %shadow_pop_l_0 = load i64, ptr %r1\n  call void @js_shadow_frame_pop(i64 %shadow_pop_l_0)\n  ret void\n}\n"
    );
}

#[test]
fn shadow_frame_without_rets_changes_nothing_in_body() {
    let mut f = LlFunction::new("w", VOID, vec![]);
    f.create_block("entry").emit_raw("unreachable");
    f.create_block("dead").emit_raw("call void @z()");
    f.enable_shadow_frame(1);
    assert_eq!(
        f.to_ir(),
        "define void @w() {\nentry.0:\n  %r1 = alloca i64\n  %r2 = call i64 @js_shadow_frame_push(i32 1)\n  store i64 %r2, ptr %r1\n  unreachable\n\ndead.1:\n  call void @z()\n}\n"
    );
    assert!(!f.to_ir().contains("js_shadow_frame_pop"));
}

#[test]
fn registers_are_shared_between_entry_prelude_and_blocks() {
    let mut f = LlFunction::new("s", VOID, vec![]);
    f.create_block("entry");
    let a = f.alloca_entry(I64);
    let (blk, regs) = f.block_with_regs(0);
    let b = blk.fresh_reg(regs);
    let c = f.alloca_entry(I64);
    assert_eq!((a.as_str(), b.as_str(), c.as_str()), ("%r1", "%r2", "%r3"));
}

#[test]
fn try_attribute_wins_over_inline_with_linkage() {
    let mut f = LlFunction::new("g", DOUBLE, vec![(I64, "%a".to_string()), (DOUBLE, "%b".to_string())]);
    f.set_linkage("internal");
    f.set_has_try(true);
    f.set_force_inline(true);
    assert_eq!(f.linkage(), "internal");
    assert!(f.has_try() && f.force_inline());
    assert_eq!(f.name(), "g");
    f.create_block("entry").ret_void();
    assert_eq!(f.to_ir(), "define internal double @g(i64 %a, double %b) #1 {\nentry.0:\n  ret void\n}\n");
    f.set_has_try(false);
    assert_eq!(f.to_ir(), "define internal double @g(i64 %a, double %b) alwaysinline {\nentry.0:\n  ret void\n}\n");
    f.set_linkage("");
    f.set_force_inline(false);
    assert_eq!(f.to_ir(), "define double @g(i64 %a, double %b) {\nentry.0:\n  ret void\n}\n");
}

#[test]
fn block_count_equals_create_calls_and_labels_stay_distinct() {
    let mut f = LlFunction::new("h", VOID, vec![]);
    let names = ["entry", "loop", "loop", "exit", "loop.1", "x"];
    for (i, n) in names.iter().enumerate() {
        assert_eq!(f.num_blocks(), i);
        let b = f.create_block(n);
        assert_eq!(b.label, format!("{}.{}", n, i));
        assert_eq!(b.instruction_count(), 0);
        assert!(!b.is_terminated());
    }
    assert_eq!(f.num_blocks(), names.len());
    let labels: Vec<&str> = f.blocks().iter().map(|b| b.label()).collect();
    for i in 0..labels.len() {
        for j in 0..labels.len() {
            if i != j {
                assert_ne!(labels[i], labels[j]);
            }
        }
    }
    assert_eq!(f.last_block_label(), Some("x.5"));
}

#[test]
fn post_init_loads_keep_call_order_at_the_boundary() {
    let mut f = LlFunction::new("m", VOID, vec![]);
    f.create_block("entry").emit_raw("call void @init()");
    f.mark_entry_init_boundary();
    let a = f.entry_init_load_global("a", I64);
    let b = f.entry_init_load_global("b", DOUBLE);
    assert_eq!((a.as_str(), b.as_str()), ("%r1", "%r3"));
    f.block_mut(0).unwrap().emit_raw("call void @user()");
    f.block_mut(0).unwrap().ret_void();
    assert_eq!(
        f.to_ir(),
        "define void @m() {\nentry.0:\n  %r1 = alloca i64\n  %r3 = alloca double\n  call void @init()\n  %r2 = load i64, ptr @a\n  store i64 %r2, ptr %r1\n  %r4 = load double, ptr @b\n  store double %r4, ptr %r3\n  call void @user()\n  ret void\n}\n"
    );
}
