//! Integer specialization for pure numeric recursive functions: a function
//! whose parameters and result are numbers and whose body only does
//! `+ - *`, comparisons, conditionals and calls to itself can be compiled
//! to a second version that works on `i64` directly.

use vstd::prelude::*;

use crate::block::{
    BlockView, reg_name, ibin_text, load_text, store_text, alloca_text, call_text, ret_text, br_text,
    cond_br_text,
};
use crate::block::{LlBlock, RegCounter};
use crate::function::{FunctionView, LlFunction, block_label, params_view};
use crate::text::push_dec;
use crate::types::{LlvmType, I64};
use crate::hir::{BinaryOp, CompareOp, Expr, Function, Param, Stmt, Type};
use crate::text::{dec, join};

verus! {

/// An expression the `i64` version can compute: literals, local reads,
/// `+ - *`, comparisons, conditionals, and calls of function `sid`.
pub open spec fn i64s_expr_spec(e: Expr, sid: u32) -> bool
    decreases e,
{
    match e {
        Expr::Integer(_) | Expr::Number(_) | Expr::LocalGet(_) => true,
        Expr::Binary { op, left, right } => (op is Add || op is Sub || op is Mul) && i64s_expr_spec(*left, sid)
            && i64s_expr_spec(*right, sid),
        Expr::Compare { left, right, .. } => i64s_expr_spec(*left, sid) && i64s_expr_spec(*right, sid),
        Expr::Call { callee, args } => (match *callee {
            Expr::FuncRef(id) => id == sid,
            _ => false,
        }) && i64s_exprs_spec(args@, sid),
        Expr::Conditional { condition, then_expr, else_expr } => i64s_expr_spec(*condition, sid)
            && i64s_expr_spec(*then_expr, sid) && i64s_expr_spec(*else_expr, sid),
        _ => false,
    }
}

pub open spec fn i64s_exprs_spec(es: Seq<Expr>, sid: u32) -> bool
    decreases es,
{
    if es.len() == 0 {
        true
    } else {
        i64s_exprs_spec(es.drop_last(), sid) && i64s_expr_spec(es.last(), sid)
    }
}

/// A statement the `i64` version can run: returns, `if`s, expression
/// statements and `let`s over such expressions.
pub open spec fn i64s_stmt_spec(s: Stmt, sid: u32) -> bool
    decreases s,
{
    match s {
        Stmt::Return(Some(e)) => i64s_expr_spec(e, sid),
        Stmt::Return(None) => true,
        Stmt::If { condition, then_branch, else_branch } => i64s_expr_spec(condition, sid) && i64s_stmts_spec(
            then_branch@,
            sid,
        ) && match else_branch {
            Some(eb) => i64s_stmts_spec(eb@, sid),
            None => true,
        },
        Stmt::Expr(e) => i64s_expr_spec(e, sid),
        Stmt::Let { init: Some(e), .. } => i64s_expr_spec(e, sid),
        Stmt::Let { init: None, .. } => true,
        _ => false,
    }
}

pub open spec fn i64s_stmts_spec(ss: Seq<Stmt>, sid: u32) -> bool
    decreases ss,
{
    if ss.len() == 0 {
        true
    } else {
        i64s_stmts_spec(ss.drop_last(), sid) && i64s_stmt_spec(ss.last(), sid)
    }
}

pub open spec fn all_number_params(f: Function) -> bool {
    forall|i: int| 0 <= i < f.params.len() ==> #[trigger] f.params@[i].ty is Number
}

/// A function is i64-specializable if it's a pure numeric recursive fn:
/// not async, not a generator, numbers in and out, and a body built only
/// from what the `i64` version can compute.
pub open spec fn specializable(f: Function) -> bool {
    !f.is_async && !f.is_generator && f.return_type is Number && all_number_params(f) && i64s_stmts_spec(
        f.body@,
        f.id,
    )
}

pub fn i64s_expr(e: &Expr, sid: u32) -> (b: bool)
    ensures
        b == i64s_expr_spec(*e, sid),
    decreases e,
{
    match e {
        Expr::Integer(_) | Expr::Number(_) | Expr::LocalGet(_) => true,
        Expr::Binary { op, left, right } => {
            let op_ok = match op {
                BinaryOp::Add | BinaryOp::Sub | BinaryOp::Mul => true,
                BinaryOp::Other => false,
            };
            op_ok && i64s_expr(left, sid) && i64s_expr(right, sid)
        },
        Expr::Compare { left, right, .. } => i64s_expr(left, sid) && i64s_expr(right, sid),
        Expr::Call { callee, args } => {
            let callee_ok = match &**callee {
                Expr::FuncRef(id) => *id == sid,
                _ => false,
            };
            callee_ok && i64s_exprs(args, sid)
        },
        Expr::Conditional { condition, then_expr, else_expr } => i64s_expr(condition, sid) && i64s_expr(
            then_expr,
            sid,
        ) && i64s_expr(else_expr, sid),
        _ => false,
    }
}

fn i64s_exprs(es: &Vec<Expr>, sid: u32) -> (b: bool)
    ensures
        b == i64s_exprs_spec(es@, sid),
    decreases es@,
{
    let mut i: usize = 0;
    while i < es.len()
        invariant
            i <= es.len(),
            i64s_exprs_spec(es@.take(i as int), sid),
        decreases es.len() - i,
    {
        assert(es@.take(i + 1).drop_last() =~= es@.take(i as int));
        if !i64s_expr(&es[i], sid) {
            proof {
                if i64s_exprs_spec(es@, sid) {
                    lemma_exprs_prefix(es@, i as int + 1, sid);
                }
            }
            return false;
        }
        i = i + 1;
    }
    assert(es@.take(es.len() as int) =~= es@);
    true
}

/// A list is fine only if each of its prefixes is.
proof fn lemma_exprs_prefix(es: Seq<Expr>, k: int, sid: u32)
    requires
        0 <= k <= es.len(),
        i64s_exprs_spec(es, sid),
    ensures
        i64s_exprs_spec(es.take(k), sid),
    decreases es.len(),
{
    if k == es.len() {
        assert(es.take(k) =~= es);
    } else {
        lemma_exprs_prefix(es.drop_last(), k, sid);
        assert(es.drop_last().take(k) =~= es.take(k));
    }
}

proof fn lemma_stmts_prefix(ss: Seq<Stmt>, k: int, sid: u32)
    requires
        0 <= k <= ss.len(),
        i64s_stmts_spec(ss, sid),
    ensures
        i64s_stmts_spec(ss.take(k), sid),
    decreases ss.len(),
{
    if k == ss.len() {
        assert(ss.take(k) =~= ss);
    } else {
        lemma_stmts_prefix(ss.drop_last(), k, sid);
        assert(ss.drop_last().take(k) =~= ss.take(k));
    }
}

pub fn i64s_stmts(ss: &Vec<Stmt>, sid: u32) -> (b: bool)
    ensures
        b == i64s_stmts_spec(ss@, sid),
    decreases ss@,
{
    let mut i: usize = 0;
    while i < ss.len()
        invariant
            i <= ss.len(),
            i64s_stmts_spec(ss@.take(i as int), sid),
        decreases ss.len() - i,
    {
        assert(ss@.take(i + 1).drop_last() =~= ss@.take(i as int));
        if !i64s_stmt(&ss[i], sid) {
            proof {
                if i64s_stmts_spec(ss@, sid) {
                    lemma_stmts_prefix(ss@, i as int + 1, sid);
                }
            }
            return false;
        }
        i = i + 1;
    }
    assert(ss@.take(ss.len() as int) =~= ss@);
    true
}

fn i64s_stmt(s: &Stmt, sid: u32) -> (b: bool)
    ensures
        b == i64s_stmt_spec(*s, sid),
    decreases s,
{
    match s {
        Stmt::Return(Some(e)) => i64s_expr(e, sid),
        Stmt::Return(None) => true,
        Stmt::If { condition, then_branch, else_branch } => {
            i64s_expr(condition, sid) && i64s_stmts(then_branch, sid) && match else_branch {
                Some(eb) => i64s_stmts(eb, sid),
                None => true,
            }
        },
        Stmt::Expr(e) => i64s_expr(e, sid),
        Stmt::Let { init: Some(e), .. } => i64s_expr(e, sid),
        Stmt::Let { init: None, .. } => true,
        _ => false,
    }
}

/// A function is i64-specializable if it's a pure numeric recursive fn.
pub fn is_integer_specializable(f: &Function) -> (b: bool)
    ensures
        b == specializable(*f),
{
    if f.is_async || f.is_generator {
        return false;
    }
    match f.return_type {
        Type::Number => {},
        Type::Other => {
            return false;
        },
    }
    let mut i: usize = 0;
    while i < f.params.len()
        invariant
            i <= f.params.len(),
            forall|k: int| 0 <= k < i ==> #[trigger] f.params@[k].ty is Number,
        decreases f.params.len() - i,
    {
        match f.params[i].ty {
            Type::Number => {},
            Type::Other => {
                return false;
            },
        }
        i = i + 1;
    }
    i64s_stmts(&f.body, f.id)
}


// -------- The `i64` version's code, as a function of the source --------

/// What code generation for one function keeps fixed: the slots of the
/// parameters (by local id, later entries win), the name of the `i64`
/// version, and the id of the function being specialized.
pub struct Ctx {
    pub locals: Seq<(u32, Seq<char>)>,
    pub sn: Seq<char>,
    pub sid: u32,
}

/// The slot of local `id`: the last entry for it.
pub open spec fn lookup(locals: Seq<(u32, Seq<char>)>, id: u32) -> Option<Seq<char>>
    decreases locals.len(),
{
    if locals.len() == 0 {
        None
    } else if locals.last().0 == id {
        Some(locals.last().1)
    } else {
        lookup(locals.drop_last(), id)
    }
}

/// Decimal numeral of a signed integer, with `-` when negative.
pub open spec fn sdec(n: i64) -> Seq<char> {
    if n < 0 {
        "-"@ + dec((0 - n) as nat)
    } else {
        dec(n as nat)
    }
}

/// `f` with block `i` replaced by `b`.
pub open spec fn on_block(f: FunctionView, i: int, b: BlockView) -> FunctionView {
    FunctionView { blocks: f.blocks.update(i, b), ..f }
}

/// `f` after emitting `line`, which defines the next register, into block
/// `cur`.
pub open spec fn def_step(f: FunctionView, cur: int, line: Seq<char>) -> FunctionView {
    FunctionView { regs: f.regs + 1, blocks: f.blocks.update(cur, f.blocks[cur].emit(line)), ..f }
}

/// `f` after emitting terminator `line` into block `cur`.
pub open spec fn term_step(f: FunctionView, cur: int, line: Seq<char>) -> FunctionView {
    on_block(f, cur, f.blocks[cur].emit(line).terminate())
}

/// `f` after `create_block(name)`.
pub open spec fn new_block(f: FunctionView, name: Seq<char>) -> FunctionView {
    FunctionView {
        blocks: f.blocks.push(
            BlockView { label: block_label(name, f.block_counter), instrs: Seq::empty(), terminated: false },
        ),
        block_counter: f.block_counter + 1,
        ..f
    }
}

/// An `i64` call argument: `i64 <v>`.
pub open spec fn i64_arg(v: Seq<char>) -> Seq<char> {
    "i64"@ + " "@ + v
}

pub open spec fn i64_args(vs: Seq<Seq<char>>) -> Seq<char> {
    join(vs.map_values(|v: Seq<char>| i64_arg(v)), ", "@)
}

/// The `icmp` predicate for a comparison.
pub open spec fn icmp_pred(op: CompareOp) -> Seq<char> {
    match op {
        CompareOp::Le => "icmp sle"@,
        CompareOp::Lt => "icmp slt"@,
        CompareOp::Gt => "icmp sgt"@,
        CompareOp::Ge => "icmp sge"@,
        CompareOp::Eq | CompareOp::LooseEq => "icmp eq"@,
        CompareOp::Ne | CompareOp::LooseNe => "icmp ne"@,
    }
}

/// What a source comparison means on integers.
pub open spec fn compare_holds(op: CompareOp, a: int, b: int) -> bool {
    match op {
        CompareOp::Le => a <= b,
        CompareOp::Lt => a < b,
        CompareOp::Gt => a > b,
        CompareOp::Ge => a >= b,
        CompareOp::Eq | CompareOp::LooseEq => a == b,
        CompareOp::Ne | CompareOp::LooseNe => a != b,
    }
}

/// What an LLVM integer comparison means on signed operands; `false` for
/// text that is none of the six predicates used here.
pub open spec fn icmp_holds(pred: Seq<char>, a: int, b: int) -> bool {
    if pred == "icmp sle"@ {
        a <= b
    } else if pred == "icmp slt"@ {
        a < b
    } else if pred == "icmp sgt"@ {
        a > b
    } else if pred == "icmp sge"@ {
        a >= b
    } else if pred == "icmp eq"@ {
        a == b
    } else if pred == "icmp ne"@ {
        a != b
    } else {
        false
    }
}

/// The comparison emitted for a source comparison decides the same thing:
/// on every pair of signed operands, the `icmp` holds exactly when the
/// source comparison does.
pub proof fn lemma_icmp_pred_means_compare(op: CompareOp, a: int, b: int)
    ensures
        icmp_holds(icmp_pred(op), a, b) == compare_holds(op, a, b),
{
    reveal_strlit("icmp sle");
    reveal_strlit("icmp slt");
    reveal_strlit("icmp sgt");
    reveal_strlit("icmp sge");
    reveal_strlit("icmp eq");
    reveal_strlit("icmp ne");
    assert("icmp slt"@[7] != "icmp sle"@[7]);
    assert("icmp sgt"@[6] != "icmp sle"@[6]);
    assert("icmp sge"@[6] != "icmp sle"@[6]);
    assert("icmp sgt"@[6] != "icmp slt"@[6]);
    assert("icmp sge"@[6] != "icmp slt"@[6]);
    assert("icmp sge"@[7] != "icmp sgt"@[7]);
    assert("icmp eq"@[5] != "icmp ne"@[5]);
}

/// The LLVM opcode emitted for `+`, `-` and `*`.
pub open spec fn arith_opcode(op: BinaryOp) -> Seq<char> {
    match op {
        BinaryOp::Add => "add"@,
        BinaryOp::Sub => "sub"@,
        BinaryOp::Mul => "mul"@,
        BinaryOp::Other => Seq::empty(),
    }
}

/// What a source arithmetic operator computes on integers.
pub open spec fn source_arith(op: BinaryOp, a: int, b: int) -> int {
    match op {
        BinaryOp::Add => a + b,
        BinaryOp::Sub => a - b,
        BinaryOp::Mul => a * b,
        BinaryOp::Other => 0,
    }
}

/// What an LLVM integer opcode computes (before wrapping); 0 for text
/// that is none of the three used here.
pub open spec fn llvm_arith(opcode: Seq<char>, a: int, b: int) -> int {
    if opcode == "add"@ {
        a + b
    } else if opcode == "sub"@ {
        a - b
    } else if opcode == "mul"@ {
        a * b
    } else {
        0
    }
}

/// The instruction emitted for `+`, `-` or `*` computes the same value as
/// the source operator, on every pair of operands.
pub proof fn lemma_arith_opcode_means_op(op: BinaryOp, a: int, b: int)
    requires
        !(op is Other),
    ensures
        llvm_arith(arith_opcode(op), a, b) == source_arith(op, a, b),
{
    reveal_strlit("add");
    reveal_strlit("sub");
    reveal_strlit("mul");
    assert("sub"@[0] != "add"@[0]);
    assert("mul"@[0] != "add"@[0]);
    assert("mul"@[0] != "sub"@[0]);
}

/// The specializer accepts exactly the arithmetic it can emit: a binary
/// expression qualifies when its operator has an `i64` opcode and both
/// operands qualify.
pub proof fn lemma_accepted_arith_is_emitted(op: BinaryOp, l: Expr, r: Expr, sid: u32)
    ensures
        i64s_expr_spec(Expr::Binary { op, left: Box::new(l), right: Box::new(r) }, sid) <==> (arith_opcode(op).len() > 0
            && i64s_expr_spec(l, sid) && i64s_expr_spec(r, sid)),
{
    reveal_strlit("add");
    reveal_strlit("sub");
    reveal_strlit("mul");
}

/// Code for an expression's `i64` value in block `cur`: the function
/// afterwards, and the operand that holds the value. Anything the
/// specializer does not handle is the constant `0`.
pub open spec fn val_spec(f: FunctionView, cur: int, e: Expr, cx: Ctx) -> (FunctionView, Seq<char>)
    decreases e,
{
    match e {
        Expr::Integer(n) => (f, sdec(n)),
        Expr::Number(n) => (f, sdec(n)),
        Expr::LocalGet(id) => match lookup(cx.locals, id) {
            Some(slot) => {
                let r = reg_name(f.regs + 1);
                (def_step(f, cur, load_text(r, "load"@, "i64"@, slot)), r)
            },
            None => (f, "0"@),
        },
        Expr::Binary { op, left, right } => {
            let (f1, l) = val_spec(f, cur, *left, cx);
            let (f2, rr) = val_spec(f1, cur, *right, cx);
            let r = reg_name(f2.regs + 1);
            match op {
                BinaryOp::Other => (f2, "0"@),
                _ => (def_step(f2, cur, ibin_text(r, arith_opcode(op), "i64"@, l, rr)), r),
            }
        },
        Expr::Call { callee, args } => match *callee {
            Expr::FuncRef(id) => if id == cx.sid {
                let (f1, vs) = vals_spec(f, cur, args@, cx);
                let r = reg_name(f1.regs + 1);
                (def_step(f1, cur, call_text(r, "i64"@, cx.sn, i64_args(vs))), r)
            } else {
                (f, "0"@)
            },
            _ => (f, "0"@),
        },
        _ => (f, "0"@),
    }
}

/// Code for a list of values, left to right.
pub open spec fn vals_spec(f: FunctionView, cur: int, es: Seq<Expr>, cx: Ctx) -> (FunctionView, Seq<Seq<char>>)
    decreases es,
{
    if es.len() == 0 {
        (f, Seq::empty())
    } else {
        let (f1, vs) = vals_spec(f, cur, es.drop_last(), cx);
        let (f2, v) = val_spec(f1, cur, es.last(), cx);
        (f2, vs.push(v))
    }
}

/// Code for a branch condition: an `icmp` for a comparison, else a test
/// of the value against 0.
pub open spec fn cond_spec(f: FunctionView, cur: int, e: Expr, cx: Ctx) -> (FunctionView, Seq<char>) {
    match e {
        Expr::Compare { op, left, right } => {
            let (f1, l) = val_spec(f, cur, *left, cx);
            let (f2, rr) = val_spec(f1, cur, *right, cx);
            let r = reg_name(f2.regs + 1);
            (def_step(f2, cur, ibin_text(r, icmp_pred(op), "i64"@, l, rr)), r)
        },
        _ => {
            let (f1, v) = val_spec(f, cur, e, cx);
            let r = reg_name(f1.regs + 1);
            (def_step(f1, cur, ibin_text(r, "icmp ne"@, "i64"@, v, "0"@)), r)
        },
    }
}

/// `br label %<target>` into block `cur` unless it is already terminated.
pub open spec fn close_into(f: FunctionView, cur: int, target: Seq<char>) -> FunctionView {
    if f.blocks[cur].terminated {
        f
    } else {
        term_step(f, cur, br_text(target))
    }
}

/// Code for one statement starting in block `cur`: the function
/// afterwards and the block where code continues.
pub open spec fn stmt_spec(f: FunctionView, cur: int, s: Stmt, cx: Ctx) -> (FunctionView, int)
    decreases s,
{
    match s {
        Stmt::Return(Some(e)) => {
            let (f1, v) = val_spec(f, cur, e, cx);
            (term_step(f1, cur, ret_text("i64"@, v)), cur)
        },
        Stmt::Return(None) => (term_step(f, cur, ret_text("i64"@, "0"@)), cur),
        Stmt::If { condition, then_branch, else_branch } => {
            let (f1, c) = cond_spec(f, cur, condition, cx);
            let ti = f1.blocks.len() as int;
            let tl = block_label("i64.then"@, f1.block_counter);
            let f2 = new_block(f1, "i64.then"@);
            let ei = f2.blocks.len() as int;
            let el = block_label("i64.else"@, f2.block_counter);
            let f3 = if else_branch is Some {
                new_block(f2, "i64.else"@)
            } else {
                f2
            };
            let mi = f3.blocks.len() as int;
            let ml = block_label("i64.merge"@, f3.block_counter);
            let f4 = new_block(f3, "i64.merge"@);
            let f5 = term_step(f4, cur, cond_br_text(c, tl, if else_branch is Some { el } else { ml }));
            let (f6, c6) = stmts_spec(f5, ti, then_branch@, cx);
            let f7 = close_into(f6, c6, ml);
            match else_branch {
                Some(eb) => {
                    let (f8, c8) = stmts_spec(f7, ei, eb@, cx);
                    (close_into(f8, c8, ml), mi)
                },
                None => (f7, mi),
            }
        },
        _ => (f, cur),
    }
}

/// Code for a statement list starting in block `cur`; it stops at the
/// first statement reached in a terminated block.
pub open spec fn stmts_spec(f: FunctionView, cur: int, ss: Seq<Stmt>, cx: Ctx) -> (FunctionView, int)
    decreases ss,
{
    if ss.len() == 0 {
        (f, cur)
    } else if f.blocks[cur].terminated {
        (f, cur)
    } else {
        let (f1, c1) = stmt_spec(f, cur, ss[0], cx);
        stmts_spec(f1, c1, ss.drop_first(), cx)
    }
}

/// The parameters of the `i64` version: `i64 %arg<id>` each.
pub open spec fn i64_params(ps: Seq<Param>) -> Seq<(Seq<char>, Seq<char>)> {
    ps.map_values(|p: Param| ("i64"@, "%arg"@ + dec(p.id as nat)))
}

/// Slots for the parameters in block 0: an `alloca` and a store of the
/// incoming argument each; the local table maps each id to its slot.
pub open spec fn param_slots(f: FunctionView, ps: Seq<Param>) -> (FunctionView, Seq<(u32, Seq<char>)>)
    decreases ps.len(),
{
    if ps.len() == 0 {
        (f, Seq::empty())
    } else {
        let (f1, locals) = param_slots(f, ps.drop_last());
        let p = ps.last();
        let slot = reg_name(f1.regs + 1);
        let f2 = def_step(f1, 0, alloca_text(slot, "i64"@));
        let f3 = on_block(f2, 0, f2.blocks[0].emit(store_text("store"@, "i64"@, "%arg"@ + dec(p.id as nat), slot)));
        (f3, locals.push((p.id, slot)))
    }
}

/// The `i64` version of `f`, named `name`.
pub open spec fn i64_function_spec(f: Function, name: Seq<char>) -> FunctionView {
    let f0 = FunctionView {
        name: name,
        return_type: "i64"@,
        params: i64_params(f.params@),
        linkage: Seq::empty(),
        has_try: false,
        force_inline: false,
        blocks: Seq::empty(),
        block_counter: 0,
        regs: 0,
        entry_allocas: Seq::empty(),
        post_init: Seq::empty(),
        boundary: None,
        shadow_slot: None,
    };
    let f1 = new_block(f0, "entry"@);
    let (f2, locals) = param_slots(f1, f.params@);
    let (f3, c3) = stmts_spec(f2, 0, f.body@, Ctx { locals, sn: name, sid: f.id });
    if f3.blocks[c3].terminated {
        f3
    } else {
        term_step(f3, c3, ret_text("i64"@, "0"@))
    }
}


// -------- Every block of the `i64` version is terminated --------

/// The blocks of `g` have the same terminated flags as those of `f`.
pub open spec fn same_flags(f: FunctionView, g: FunctionView) -> bool {
    &&& g.blocks.len() == f.blocks.len()
    &&& forall|i: int| 0 <= i < f.blocks.len() ==> #[trigger] g.blocks[i].terminated == f.blocks[i].terminated
}

/// Lowering a statement (list) from block `cur` of `f` gave `g`,
/// continuing in block `c`: older blocks other than `cur` keep their
/// flags, `cur` is terminated unless code continues in it, and every new
/// block other than `c` is terminated.
pub open spec fn lowered_shape(f: FunctionView, cur: int, g: FunctionView, c: int) -> bool {
    &&& f.blocks.len() <= g.blocks.len()
    &&& 0 <= c < g.blocks.len()
    &&& (c == cur || f.blocks.len() <= c)
    &&& forall|i: int| 0 <= i < f.blocks.len() && i != cur ==> #[trigger] g.blocks[i].terminated == f.blocks[i].terminated
    &&& (c != cur ==> g.blocks[cur].terminated)
    &&& (f.blocks[cur].terminated ==> g.blocks[cur].terminated)
    &&& forall|i: int| f.blocks.len() <= i < g.blocks.len() && i != c ==> #[trigger] g.blocks[i].terminated
}

proof fn lemma_val_flags(f: FunctionView, cur: int, e: Expr, cx: Ctx)
    requires
        0 <= cur < f.blocks.len(),
    ensures
        same_flags(f, val_spec(f, cur, e, cx).0),
    decreases e,
{
    match e {
        Expr::Binary { left, right, .. } => {
            lemma_val_flags(f, cur, *left, cx);
            let f1 = val_spec(f, cur, *left, cx).0;
            lemma_val_flags(f1, cur, *right, cx);
        },
        Expr::Call { callee, args } => {
            lemma_vals_flags(f, cur, args@, cx);
        },
        _ => {},
    }
}

proof fn lemma_vals_flags(f: FunctionView, cur: int, es: Seq<Expr>, cx: Ctx)
    requires
        0 <= cur < f.blocks.len(),
    ensures
        same_flags(f, vals_spec(f, cur, es, cx).0),
    decreases es,
{
    if es.len() > 0 {
        lemma_vals_flags(f, cur, es.drop_last(), cx);
        let f1 = vals_spec(f, cur, es.drop_last(), cx).0;
        lemma_val_flags(f1, cur, es.last(), cx);
    }
}

proof fn lemma_cond_flags(f: FunctionView, cur: int, e: Expr, cx: Ctx)
    requires
        0 <= cur < f.blocks.len(),
    ensures
        same_flags(f, cond_spec(f, cur, e, cx).0),
{
    match e {
        Expr::Compare { left, right, .. } => {
            lemma_val_flags(f, cur, *left, cx);
            let f1 = val_spec(f, cur, *left, cx).0;
            lemma_val_flags(f1, cur, *right, cx);
        },
        _ => {
            lemma_val_flags(f, cur, e, cx);
        },
    }
}

proof fn lemma_close_shape(f: FunctionView, idx: int, target: Seq<char>)
    requires
        0 <= idx < f.blocks.len(),
    ensures
        close_into(f, idx, target).blocks.len() == f.blocks.len(),
        close_into(f, idx, target).blocks[idx].terminated,
        forall|i: int| 0 <= i < f.blocks.len() && i != idx ==> #[trigger] close_into(f, idx, target).blocks[i].terminated
            == f.blocks[i].terminated,
{
}

proof fn lemma_stmt_shape(f: FunctionView, cur: int, s: Stmt, cx: Ctx)
    requires
        0 <= cur < f.blocks.len(),
    ensures
        lowered_shape(f, cur, stmt_spec(f, cur, s, cx).0, stmt_spec(f, cur, s, cx).1),
    decreases s,
{
    match s {
        Stmt::Return(Some(e)) => {
            lemma_val_flags(f, cur, e, cx);
        },
        Stmt::If { condition, then_branch, else_branch } => {
            lemma_cond_flags(f, cur, condition, cx);
            let (f1, c) = cond_spec(f, cur, condition, cx);
            let ti = f1.blocks.len() as int;
            let tl = block_label("i64.then"@, f1.block_counter);
            let f2 = new_block(f1, "i64.then"@);
            let ei = f2.blocks.len() as int;
            let el = block_label("i64.else"@, f2.block_counter);
            let f3 = if else_branch is Some {
                new_block(f2, "i64.else"@)
            } else {
                f2
            };
            let mi = f3.blocks.len() as int;
            let ml = block_label("i64.merge"@, f3.block_counter);
            let f4 = new_block(f3, "i64.merge"@);
            let f5 = term_step(f4, cur, cond_br_text(c, tl, if else_branch is Some { el } else { ml }));
            lemma_stmts_shape(f5, ti, then_branch@, cx);
            let (f6, c6) = stmts_spec(f5, ti, then_branch@, cx);
            lemma_close_shape(f6, c6, ml);
            let f7 = close_into(f6, c6, ml);
            assert(f7.blocks[ti].terminated);
            assert(!f7.blocks[mi].terminated);
            match else_branch {
                Some(eb) => {
                    lemma_stmts_shape(f7, ei, eb@, cx);
                    let (f8, c8) = stmts_spec(f7, ei, eb@, cx);
                    lemma_close_shape(f8, c8, ml);
                    let f9 = close_into(f8, c8, ml);
                    assert(f9.blocks[ei].terminated);
                    assert(f9.blocks[ti].terminated);
                    assert(f9.blocks[cur].terminated);
                    assert(stmt_spec(f, cur, s, cx) == (f9, mi));
                    assert forall|i: int| f.blocks.len() <= i < f9.blocks.len() && i != mi implies #[trigger] f9.blocks[i].terminated by {
                        if i == ti || i == ei {
                        } else if i < f7.blocks.len() {
                            assert(f7.blocks[i].terminated);
                        }
                    }
                },
                None => {
                    assert(stmt_spec(f, cur, s, cx) == (f7, mi));
                },
            }
        },
        _ => {},
    }
}

proof fn lemma_stmts_shape(f: FunctionView, cur: int, ss: Seq<Stmt>, cx: Ctx)
    requires
        0 <= cur < f.blocks.len(),
    ensures
        lowered_shape(f, cur, stmts_spec(f, cur, ss, cx).0, stmts_spec(f, cur, ss, cx).1),
    decreases ss,
{
    if ss.len() > 0 && !f.blocks[cur].terminated {
        lemma_stmt_shape(f, cur, ss[0], cx);
        let (f1, c1) = stmt_spec(f, cur, ss[0], cx);
        lemma_stmts_shape(f1, c1, ss.drop_first(), cx);
        let (g, c) = stmts_spec(f1, c1, ss.drop_first(), cx);
        assert forall|i: int| f.blocks.len() <= i < g.blocks.len() && i != c implies #[trigger] g.blocks[i].terminated by {
            if i < f1.blocks.len() && i != c1 {
                assert(f1.blocks[i].terminated);
            }
        }
    }
}

proof fn lemma_param_slots_flags(f: FunctionView, ps: Seq<Param>)
    requires
        f.blocks.len() > 0,
    ensures
        same_flags(f, param_slots(f, ps).0),
    decreases ps.len(),
{
    if ps.len() > 0 {
        lemma_param_slots_flags(f, ps.drop_last());
    }
}

/// The `i64` version is a well-formed control-flow graph in one respect
/// LLVM insists on: every one of its blocks ends in a terminator (`ret`
/// or `br`), and it has at least the entry block.
pub proof fn lemma_i64_blocks_terminated(f: Function, name: Seq<char>)
    ensures
        i64_function_spec(f, name).blocks.len() >= 1,
        forall|i: int|
            0 <= i < i64_function_spec(f, name).blocks.len() ==> #[trigger] i64_function_spec(
                f,
                name,
            ).blocks[i].terminated,
{
    let f0 = FunctionView {
        name: name,
        return_type: "i64"@,
        params: i64_params(f.params@),
        linkage: Seq::empty(),
        has_try: false,
        force_inline: false,
        blocks: Seq::empty(),
        block_counter: 0,
        regs: 0,
        entry_allocas: Seq::empty(),
        post_init: Seq::empty(),
        boundary: None,
        shadow_slot: None,
    };
    let f1 = new_block(f0, "entry"@);
    lemma_param_slots_flags(f1, f.params@);
    let (f2, locals) = param_slots(f1, f.params@);
    let cx = Ctx { locals, sn: name, sid: f.id };
    lemma_stmts_shape(f2, 0, f.body@, cx);
    let (f3, c3) = stmts_spec(f2, 0, f.body@, cx);
    if !f3.blocks[c3].terminated {
        let g = term_step(f3, c3, ret_text("i64"@, "0"@));
        assert forall|i: int| 0 <= i < g.blocks.len() implies #[trigger] g.blocks[i].terminated by {
            if i != c3 {
                assert(f3.blocks[i].terminated);
            }
        }
    }
}

// -------- Resource bounds --------

/// Registers an expression's code may define, at most.
pub open spec fn expr_cost(e: Expr) -> nat
    decreases e,
{
    match e {
        Expr::LocalGet(_) => 1,
        Expr::Binary { left, right, .. } => 1 + expr_cost(*left) + expr_cost(*right),
        Expr::Compare { left, right, .. } => 1 + expr_cost(*left) + expr_cost(*right),
        Expr::Call { args, .. } => 1 + exprs_cost(args@),
        _ => 0,
    }
}

pub open spec fn exprs_cost(es: Seq<Expr>) -> nat
    decreases es,
{
    if es.len() == 0 {
        0
    } else {
        exprs_cost(es.drop_last()) + expr_cost(es.last())
    }
}

/// Registers a statement's code may define, at most.
pub open spec fn stmt_cost(s: Stmt) -> nat
    decreases s,
{
    match s {
        Stmt::Return(Some(e)) => expr_cost(e),
        Stmt::If { condition, then_branch, else_branch } => 1 + expr_cost(condition) + stmts_cost(then_branch@)
            + match else_branch {
            Some(eb) => stmts_cost(eb@),
            None => 0,
        },
        _ => 0,
    }
}

pub open spec fn stmts_cost(ss: Seq<Stmt>) -> nat
    decreases ss,
{
    if ss.len() == 0 {
        0
    } else {
        stmt_cost(ss[0]) + stmts_cost(ss.drop_first())
    }
}

/// Blocks a statement's code may create, at most.
pub open spec fn stmt_blocks(s: Stmt) -> nat
    decreases s,
{
    match s {
        Stmt::If { then_branch, else_branch, .. } => 3 + stmts_blocks(then_branch@) + match else_branch {
            Some(eb) => stmts_blocks(eb@),
            None => 0,
        },
        _ => 0,
    }
}

pub open spec fn stmts_blocks(ss: Seq<Stmt>) -> nat
    decreases ss,
{
    if ss.len() == 0 {
        0
    } else {
        stmt_blocks(ss[0]) + stmts_blocks(ss.drop_first())
    }
}

// -------- Code generation --------

/// The per-function context of code generation.
struct I64Cx {
    locals: Vec<(u32, String)>,
    sn: String,
    sid: u32,
}

impl View for I64Cx {
    type V = Ctx;

    closed spec fn view(&self) -> Ctx {
        Ctx {
            locals: self.locals@.map_values(|p: (u32, String)| (p.0, p.1@)),
            sn: self.sn@,
            sid: self.sid,
        }
    }
}

impl I64Cx {
    /// The slot of local `id`.
    fn lookup(&self, id: u32) -> (r: Option<&String>)
        ensures
            match r {
                Some(s) => lookup(self@.locals, id) == Some(s@),
                None => lookup(self@.locals, id) is None,
            },
    {
        let ghost locs = self@.locals;
        let mut i = self.locals.len();
        assert(locs.take(i as int) =~= locs);
        while i > 0
            invariant
                i <= self.locals.len(),
                locs == self@.locals,
                lookup(locs, id) == lookup(locs.take(i as int), id),
            decreases i,
        {
            let ghost t = locs.take(i as int);
            assert(t.drop_last() =~= locs.take(i - 1));
            if self.locals[i - 1].0 == id {
                return Some(&self.locals[i - 1].1);
            }
            i = i - 1;
        }
        None
    }
}

/// The signed decimal numeral of `n`.
fn sdec_string(n: i64) -> (s: String)
    ensures
        s@ == sdec(n),
{
    let mut s = String::new();
    if n < 0 {
        s.append("-");
        let m: u64 = (0i128 - (n as i128)) as u64;
        push_dec(&mut s, m);
        assert(s@ =~= sdec(n));
    } else {
        push_dec(&mut s, n as u64);
        assert(s@ =~= sdec(n));
    }
    s
}

/// Code for the `i64` value of `e` in block `cur`.
fn i64_val(f: &mut LlFunction, cur: usize, cx: &I64Cx, e: &Expr) -> (r: String)
    requires
        cur < old(f)@.blocks.len(),
        old(f)@.regs + expr_cost(*e) <= u32::MAX,
    ensures
        (final(f)@, r@) == val_spec(old(f)@, cur as int, *e, cx@),
        final(f)@.regs <= old(f)@.regs + expr_cost(*e),
        final(f)@.blocks.len() == old(f)@.blocks.len(),
        final(f)@.block_counter == old(f)@.block_counter,
    decreases e,
{
    match e {
        Expr::Integer(n) => {
            let r = sdec_string(*n);
            assert(val_spec(old(f)@, cur as int, *e, cx@) == (old(f)@, sdec(*n)));
            r
        },
        Expr::Number(n) => {
            let r = sdec_string(*n);
            assert(val_spec(old(f)@, cur as int, *e, cx@) == (old(f)@, sdec(*n)));
            r
        },
        Expr::LocalGet(id) => match cx.lookup(*id) {
            Some(slot) => {
                let (blk, regs) = f.block_with_regs(cur);
                blk.load(regs, I64, slot.as_str())
            },
            None => "0".to_owned(),
        },
        Expr::Binary { op, left, right } => {
            let l = i64_val(f, cur, cx, left);
            let r = i64_val(f, cur, cx, right);
            match op {
                BinaryOp::Add => {
                    let (blk, regs) = f.block_with_regs(cur);
                    blk.add(regs, I64, l.as_str(), r.as_str())
                },
                BinaryOp::Sub => {
                    let (blk, regs) = f.block_with_regs(cur);
                    blk.sub(regs, I64, l.as_str(), r.as_str())
                },
                BinaryOp::Mul => {
                    let (blk, regs) = f.block_with_regs(cur);
                    blk.mul(regs, I64, l.as_str(), r.as_str())
                },
                BinaryOp::Other => "0".to_owned(),
            }
        },
        Expr::Call { callee, args } => {
            if let Expr::FuncRef(id) = &**callee {
                if *id == cx.sid {
                    let vs = i64_vals(f, cur, cx, args);
                    let arg_text = i64_arg_list(&vs);
                    let (blk, regs) = f.block_with_regs(cur);
                    let r = regs.next_name();
                    let line = crate::block::call_line(r.as_str(), I64, cx.sn.as_str(), arg_text.as_str());
                    blk.emit_raw(line.as_str());
                    return r;
                }
            }
            "0".to_owned()
        },
        _ => "0".to_owned(),
    }
}

/// `i64 v1, i64 v2, ...`.
fn i64_arg_list(vs: &Vec<String>) -> (s: String)
    ensures
        s@ == i64_args(crate::text::strings_view(vs@)),
{
    let ghost items = crate::text::strings_view(vs@).map_values(|v: Seq<char>| i64_arg(v));
    let mut s = String::new();
    let mut i: usize = 0;
    while i < vs.len()
        invariant
            i <= vs.len(),
            items == crate::text::strings_view(vs@).map_values(|v: Seq<char>| i64_arg(v)),
            s@ == join(items.take(i as int), ", "@),
        decreases vs.len() - i,
    {
        assert(items.take(i + 1).drop_last() =~= items.take(i as int));
        if i > 0 {
            s.append(", ");
        }
        s.append("i64");
        s.append(" ");
        s.append(vs[i].as_str());
        i = i + 1;
        assert(s@ =~= join(items.take(i as int), ", "@));
    }
    assert(items.take(vs.len() as int) =~= items);
    s
}

/// Code for the values of `es`, left to right.
fn i64_vals(f: &mut LlFunction, cur: usize, cx: &I64Cx, es: &Vec<Expr>) -> (vs: Vec<String>)
    requires
        cur < old(f)@.blocks.len(),
        old(f)@.regs + exprs_cost(es@) <= u32::MAX,
    ensures
        (final(f)@, crate::text::strings_view(vs@)) == vals_spec(old(f)@, cur as int, es@, cx@),
        final(f)@.regs <= old(f)@.regs + exprs_cost(es@),
        final(f)@.blocks.len() == old(f)@.blocks.len(),
        final(f)@.block_counter == old(f)@.block_counter,
    decreases es@,
{
    let mut vs: Vec<String> = Vec::new();
    let mut i: usize = 0;
    assert(es@.take(0) =~= Seq::<Expr>::empty());
    assert(es@.skip(0) =~= es@);
    assert(crate::text::strings_view(vs@) =~= Seq::<Seq<char>>::empty());
    while i < es.len()
        invariant
            i <= es.len(),
            cur < f@.blocks.len(),
            (f@, crate::text::strings_view(vs@)) == vals_spec(old(f)@, cur as int, es@.take(i as int), cx@),
            f@.regs + exprs_cost(es@.skip(i as int)) <= old(f)@.regs + exprs_cost(es@),
            old(f)@.regs + exprs_cost(es@) <= u32::MAX,
            f@.blocks.len() == old(f)@.blocks.len(),
            f@.block_counter == old(f)@.block_counter,
        decreases es.len() - i,
    {
        proof {
            assert(es@.take(i + 1).drop_last() =~= es@.take(i as int));
            lemma_exprs_cost_split(es@, i as int);
        }
        let v = i64_val(f, cur, cx, &es[i]);
        vs.push(v);
        i = i + 1;
        proof {
            assert(crate::text::strings_view(vs@) =~= crate::text::strings_view(vs@).drop_last().push(v@));
        }
    }
    assert(es@.take(es.len() as int) =~= es@);
    assert(es@.skip(es.len() as int) =~= Seq::<Expr>::empty());
    vs
}

/// The cost of a list is the cost of its first element plus the rest.
proof fn lemma_exprs_cost_split(es: Seq<Expr>, i: int)
    requires
        0 <= i < es.len(),
    ensures
        exprs_cost(es.skip(i)) == expr_cost(es[i]) + exprs_cost(es.skip(i + 1)),
    decreases es.len(),
{
    if i == es.len() - 1 {
        let t = es.skip(i);
        assert(t.drop_last() =~= Seq::<Expr>::empty());
        assert(es.skip(i + 1) =~= Seq::<Expr>::empty());
    } else {
        lemma_exprs_cost_split(es.drop_last(), i);
        assert(es.skip(i).drop_last() =~= es.drop_last().skip(i));
        assert(es.skip(i + 1).drop_last() =~= es.drop_last().skip(i + 1));
    }
}


/// `cond_spec` at a block index.
pub open spec fn cond_spec_at(f: FunctionView, cur: usize, e: Expr, cx: Ctx) -> (FunctionView, Seq<char>) {
    cond_spec(f, cur as int, e, cx)
}

/// Code for a branch condition in block `cur`.
fn i64_cond(f: &mut LlFunction, cur: usize, cx: &I64Cx, e: &Expr) -> (r: String)
    requires
        cur < old(f)@.blocks.len(),
        old(f)@.regs + expr_cost(*e) + 1 <= u32::MAX,
    ensures
        (final(f)@, r@) == cond_spec_at(old(f)@, cur, *e, cx@),
        final(f)@.regs <= old(f)@.regs + expr_cost(*e) + 1,
        final(f)@.blocks.len() == old(f)@.blocks.len(),
        final(f)@.block_counter == old(f)@.block_counter,
{
    match e {
        Expr::Compare { op, left, right } => {
            let l = i64_val(f, cur, cx, left);
            let r = i64_val(f, cur, cx, right);
            let (blk, regs) = f.block_with_regs(cur);
            match op {
                CompareOp::Le => blk.icmp_sle(regs, I64, l.as_str(), r.as_str()),
                CompareOp::Lt => blk.icmp_slt(regs, I64, l.as_str(), r.as_str()),
                CompareOp::Gt => blk.icmp_sgt(regs, I64, l.as_str(), r.as_str()),
                CompareOp::Ge => blk.icmp_sge(regs, I64, l.as_str(), r.as_str()),
                CompareOp::Eq | CompareOp::LooseEq => blk.icmp_eq(regs, I64, l.as_str(), r.as_str()),
                CompareOp::Ne | CompareOp::LooseNe => blk.icmp_ne(regs, I64, l.as_str(), r.as_str()),
            }
        },
        _ => {
            let v = i64_val(f, cur, cx, e);
            let (blk, regs) = f.block_with_regs(cur);
            blk.icmp_ne(regs, I64, v.as_str(), "0")
        },
    }
}

/// Whether block `idx` can still take instructions.
fn is_open(f: &LlFunction, idx: usize) -> (b: bool)
    requires
        idx < f@.blocks.len(),
    ensures
        b == !f@.blocks[idx as int].terminated,
{
    let bs = f.blocks();
    proof {
        assert(crate::function::blocks_view(bs@)[idx as int] == bs@[idx as int]@);
    }
    !bs[idx].is_terminated()
}

/// `br label %<target>` into block `idx` unless it is terminated.
fn close_block(f: &mut LlFunction, idx: usize, target: &str)
    requires
        idx < old(f)@.blocks.len(),
    ensures
        final(f)@ == close_into(old(f)@, idx as int, target@),
{
    if is_open(f, idx) {
        let (blk, _regs) = f.block_with_regs(idx);
        blk.br(target);
    }
}

/// Creates a block and returns its label.
fn new_block_label(f: &mut LlFunction, name: &str) -> (l: String)
    requires
        old(f)@.block_counter < u32::MAX,
    ensures
        final(f)@ == new_block(old(f)@, name@),
        l@ == block_label(name@, old(f)@.block_counter),
{
    let b = f.create_block(name);
    b.label().to_owned()
}

/// Code for one statement starting in block `cur`; returns the block
/// where code continues.
#[verifier::spinoff_prover]
#[verifier::rlimit(60)]
fn i64_stmt(f: &mut LlFunction, cur: usize, cx: &I64Cx, s: &Stmt) -> (c: usize)
    requires
        cur < old(f)@.blocks.len(),
        old(f)@.regs + stmt_cost(*s) <= u32::MAX,
        old(f)@.block_counter + stmt_blocks(*s) <= u32::MAX,
    ensures
        (final(f)@, c as int) == stmt_spec(old(f)@, cur as int, *s, cx@),
        c < final(f)@.blocks.len(),
        final(f)@.regs <= old(f)@.regs + stmt_cost(*s),
        final(f)@.block_counter <= old(f)@.block_counter + stmt_blocks(*s),
        final(f)@.blocks.len() >= old(f)@.blocks.len(),
    decreases s,
{
    match s {
        Stmt::Return(Some(e)) => {
            let v = i64_val(f, cur, cx, e);
            let (blk, _regs) = f.block_with_regs(cur);
            blk.ret(I64, v.as_str());
            cur
        },
        Stmt::Return(None) => {
            let (blk, _regs) = f.block_with_regs(cur);
            blk.ret(I64, "0");
            cur
        },
        Stmt::If { condition, then_branch, else_branch } => {
            let cond = i64_cond(f, cur, cx, condition);
            let tl = new_block_label(f, "i64.then");
            let ti = f.num_blocks() - 1;
            let has_else = else_branch.is_some();
            let (el, ei) = if has_else {
                let el = new_block_label(f, "i64.else");
                (el, f.num_blocks() - 1)
            } else {
                (String::new(), 0)
            };
            let ml = new_block_label(f, "i64.merge");
            let mi = f.num_blocks() - 1;
            {
                let (blk, _regs) = f.block_with_regs(cur);
                if has_else {
                    blk.cond_br(cond.as_str(), tl.as_str(), el.as_str());
                } else {
                    blk.cond_br(cond.as_str(), tl.as_str(), ml.as_str());
                }
            }
            let c6 = i64_stmts(f, ti, cx, then_branch);
            close_block(f, c6, ml.as_str());
            match else_branch {
                Some(eb) => {
                    let c8 = i64_stmts(f, ei, cx, eb);
                    close_block(f, c8, ml.as_str());
                },
                None => {},
            }
            mi
        },
        _ => cur,
    }
}

/// Code for a statement list starting in block `cur`; stops at the first
/// statement reached in a terminated block. Returns the block where code
/// continues.
fn i64_stmts(f: &mut LlFunction, cur: usize, cx: &I64Cx, ss: &Vec<Stmt>) -> (c: usize)
    requires
        cur < old(f)@.blocks.len(),
        old(f)@.regs + stmts_cost(ss@) <= u32::MAX,
        old(f)@.block_counter + stmts_blocks(ss@) <= u32::MAX,
    ensures
        (final(f)@, c as int) == stmts_spec(old(f)@, cur as int, ss@, cx@),
        c < final(f)@.blocks.len(),
        final(f)@.regs <= old(f)@.regs + stmts_cost(ss@),
        final(f)@.block_counter <= old(f)@.block_counter + stmts_blocks(ss@),
        final(f)@.blocks.len() >= old(f)@.blocks.len(),
    decreases ss@,
{
    let cur0 = cur;
    let mut cur = cur;
    let mut i: usize = 0;
    assert(ss@.skip(0) =~= ss@);
    while i < ss.len() && is_open(f, cur)
        invariant
            i <= ss.len(),
            cur < f@.blocks.len(),
            stmts_spec(old(f)@, cur0 as int, ss@, cx@) == stmts_spec(f@, cur as int, ss@.skip(i as int), cx@),
            f@.regs + stmts_cost(ss@.skip(i as int)) <= old(f)@.regs + stmts_cost(ss@),
            f@.block_counter + stmts_blocks(ss@.skip(i as int)) <= old(f)@.block_counter + stmts_blocks(ss@),
            old(f)@.regs + stmts_cost(ss@) <= u32::MAX,
            old(f)@.block_counter + stmts_blocks(ss@) <= u32::MAX,
            f@.blocks.len() >= old(f)@.blocks.len(),
        decreases ss.len() - i,
    {
        let ghost rest = ss@.skip(i as int);
        proof {
            assert(rest[0] == ss@[i as int]);
            assert(rest.drop_first() =~= ss@.skip(i + 1));
        }
        cur = i64_stmt(f, cur, cx, &ss[i]);
        i = i + 1;
    }
    proof {
        if i == ss.len() {
            assert(ss@.skip(i as int) =~= Seq::<Stmt>::empty());
        }
    }
    cur
}

/// `i64 %arg<id>` for each parameter.
fn i64_param_list(ps: &Vec<Param>) -> (v: Vec<(LlvmType, String)>)
    ensures
        params_view(v@) == i64_params(ps@),
{
    let mut v: Vec<(LlvmType, String)> = Vec::new();
    let mut i: usize = 0;
    while i < ps.len()
        invariant
            i <= ps.len(),
            params_view(v@) == i64_params(ps@.take(i as int)),
        decreases ps.len() - i,
    {
        let name = arg_name(ps[i].id);
        let ghost old_v = v@;
        v.push((I64, name));
        proof {
            assert(v@ == old_v.push((I64, name)));
            assert(params_view(v@) =~= params_view(old_v).push((I64@, name@)));
            assert(i64_params(ps@.take(i + 1)) =~= i64_params(ps@.take(i as int)).push(("i64"@, "%arg"@ + dec(ps@[i as int].id as nat))));
        }
        i = i + 1;
    }
    assert(ps@.take(ps.len() as int) =~= ps@);
    v
}

/// `%arg<id>`.
fn arg_name(id: u32) -> (s: String)
    ensures
        s@ == "%arg"@ + dec(id as nat),
{
    let mut s = String::new();
    s.append("%arg");
    push_dec(&mut s, id as u64);
    assert(s@ =~= "%arg"@ + dec(id as nat));
    s
}

/// Emit the `i64`-specialized version of `f` as a function named
/// `i64_name`: parameters and result are `i64`, each parameter is spilled
/// to an entry-block slot, and the body is lowered statement by
/// statement; a body that falls off its end returns 0.
pub fn emit_i64_function(f: &Function, i64_name: &str) -> (lf: LlFunction)
    requires
        f.params.len() + stmts_cost(f.body@) <= u32::MAX,
        stmts_blocks(f.body@) < u32::MAX,
    ensures
        lf@ == i64_function_spec(*f, i64_name@),
{
    let params = i64_param_list(&f.params);
    let mut lf = LlFunction::new(i64_name, I64, params);
    let _ = new_block_label(&mut lf, "entry");
    let ghost f1 = lf@;
    let mut locals: Vec<(u32, String)> = Vec::new();
    let mut i: usize = 0;
    assert(f.params@.take(0) =~= Seq::<Param>::empty());
    while i < f.params.len()
        invariant
            i <= f.params.len(),
            f.params.len() + stmts_cost(f.body@) <= u32::MAX,
            lf@.regs == i,
            lf@.blocks.len() == 1,
            lf@.block_counter == 1,
            (lf@, locals@.map_values(|p: (u32, String)| (p.0, p.1@))) == param_slots(f1, f.params@.take(i as int)),
        decreases f.params.len() - i,
    {
        let ghost before = f.params@.take(i as int);
        proof {
            assert(f.params@.take(i + 1).drop_last() =~= before);
        }
        let p = &f.params[i];
        let arg = arg_name(p.id);
        let ghost lf0 = lf@;
        let slot = {
            let (blk, regs) = lf.block_with_regs(0);
            let slot = blk.alloca(regs, I64);
            blk.store(I64, arg.as_str(), slot.as_str());
            slot
        };
        let ghost old_locals = locals@.map_values(|p: (u32, String)| (p.0, p.1@));
        locals.push((p.id, slot));
        i = i + 1;
        proof {
            assert(locals@.map_values(|p: (u32, String)| (p.0, p.1@)) =~= old_locals.push((f.params@[i - 1].id, slot@)));
            let f2 = def_step(lf0, 0, alloca_text(slot@, "i64"@));
            let f3 = on_block(f2, 0, f2.blocks[0].emit(store_text("store"@, "i64"@, arg@, slot@)));
            assert(f3.blocks =~= lf@.blocks);
            assert(f3 == lf@);
            assert(f.params@.take(i as int).last() == f.params@[i - 1]);
        }
    }
    assert(f.params@.take(f.params.len() as int) =~= f.params@);
    let cx = I64Cx { locals, sn: i64_name.to_owned(), sid: f.id };
    let c = i64_stmts(&mut lf, 0, &cx, &f.body);
    if is_open(&lf, c) {
        let (blk, _regs) = lf.block_with_regs(c);
        blk.ret(I64, "0");
    }
    lf
}

} // verus!
