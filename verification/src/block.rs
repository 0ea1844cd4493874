//! LLVM IR basic-block builder.
//!
//! Each method appends one textual LLVM IR instruction to the block;
//! `to_ir` produces the block's text. SSA registers `%r1`, `%r2`, ... are
//! drawn from a `RegCounter` that the caller shares between all blocks of
//! one function, so register names are unique function-wide.

use vstd::prelude::*;

use crate::text::{dec, join, lemma_dec_injective, push_dec, strings_view, join_strings};
use crate::types::{LlvmType, DOUBLE, I1, I32, I64};

verus! {

/// Name of the `n`th SSA register: `%r<n>`.
pub open spec fn reg_name(n: nat) -> Seq<char> {
    "%r"@ + dec(n)
}

/// One register allocation: the counter moved from `before` to `after`,
/// and `r` names the new register.
pub open spec fn reg_step(before: nat, after: nat, r: Seq<char>) -> bool {
    after == before + 1 && r == reg_name(after)
}

/// `t v` for one typed operand.
pub open spec fn typed_item(p: (&str, &str)) -> Seq<char> {
    p.0@ + " "@ + p.1@
}

pub open spec fn typed_items(args: Seq<(&str, &str)>) -> Seq<Seq<char>> {
    args.map_values(|p: (&str, &str)| typed_item(p))
}

/// `t v` pairs joined with `", "` (the argument list of a call).
pub open spec fn typed_list(args: Seq<(&str, &str)>) -> Seq<char> {
    join(typed_items(args), ", "@)
}

pub open spec fn type_items(args: Seq<(&str, &str)>) -> Seq<Seq<char>> {
    args.map_values(|p: (&str, &str)| p.0@)
}

/// The types of `args` joined with `", "`.
pub open spec fn type_list(args: Seq<(&str, &str)>) -> Seq<char> {
    join(type_items(args), ", "@)
}

/// `[ v, %l ]` for one incoming edge of a phi.
pub open spec fn phi_item(p: (&str, &str)) -> Seq<char> {
    "[ "@ + p.0@ + ", %"@ + p.1@ + " ]"@
}

pub open spec fn phi_items(incoming: Seq<(&str, &str)>) -> Seq<Seq<char>> {
    incoming.map_values(|p: (&str, &str)| phi_item(p))
}

/// `[ v, %l ]` pairs joined with `", "` (the incoming list of a phi).
pub open spec fn phi_list(incoming: Seq<(&str, &str)>) -> Seq<char> {
    join(phi_items(incoming), ", "@)
}

// -------- Instruction texts (without the two-space indent) --------

/// `r = <op> reassoc contract double a, b`
pub open spec fn fbin_text(r: Seq<char>, op: Seq<char>, a: Seq<char>, b: Seq<char>) -> Seq<char> {
    r + " = "@ + op + " reassoc contract double "@ + a + ", "@ + b
}

/// `r = fneg reassoc contract double a`
pub open spec fn fneg_text(r: Seq<char>, a: Seq<char>) -> Seq<char> {
    r + " = fneg reassoc contract double "@ + a
}

/// `r = fcmp <cond> double a, b`
pub open spec fn fcmp_text(r: Seq<char>, cond: Seq<char>, a: Seq<char>, b: Seq<char>) -> Seq<char> {
    r + " = fcmp "@ + cond + " double "@ + a + ", "@ + b
}

/// `r = <op> <ty> a, b` (integer arithmetic, and `icmp <pred>` comparisons)
pub open spec fn ibin_text(r: Seq<char>, op: Seq<char>, ty: Seq<char>, a: Seq<char>, b: Seq<char>) -> Seq<char> {
    r + " = "@ + op + " "@ + ty + " "@ + a + ", "@ + b
}

/// `r = alloca <ty>`
pub open spec fn alloca_text(r: Seq<char>, ty: Seq<char>) -> Seq<char> {
    r + " = alloca "@ + ty
}

/// `r = <kw> <ty>, ptr <ptr>` (the load forms)
pub open spec fn load_text(r: Seq<char>, kw: Seq<char>, ty: Seq<char>, ptr: Seq<char>) -> Seq<char> {
    r + " = "@ + kw + " "@ + ty + ", ptr "@ + ptr
}

/// `<kw> <ty> <val>, ptr <ptr>` (the two store forms)
pub open spec fn store_text(kw: Seq<char>, ty: Seq<char>, val: Seq<char>, ptr: Seq<char>) -> Seq<char> {
    kw + " "@ + ty + " "@ + val + ", ptr "@ + ptr
}

/// `r = <op> <from> <val> to <to>` (casts and conversions)
pub open spec fn conv_text(r: Seq<char>, op: Seq<char>, from: Seq<char>, val: Seq<char>, to: Seq<char>) -> Seq<char> {
    r + " = "@ + op + " "@ + from + " "@ + val + " to "@ + to
}

/// `r = select <cty> <cond>, <ty> <t>, <ty> <f>`
pub open spec fn select_text(
    r: Seq<char>,
    cty: Seq<char>,
    cond: Seq<char>,
    ty: Seq<char>,
    t: Seq<char>,
    f: Seq<char>,
) -> Seq<char> {
    r + " = select "@ + cty + " "@ + cond + ", "@ + ty + " "@ + t + ", "@ + ty + " "@ + f
}

/// `r = call <ret> @<name>(<args>)`
pub open spec fn call_text(r: Seq<char>, ret: Seq<char>, name: Seq<char>, args: Seq<char>) -> Seq<char> {
    r + " = call "@ + ret + " @"@ + name + "("@ + args + ")"@
}

/// `call void @<name>(<args>)`
pub open spec fn call_void_text(name: Seq<char>, args: Seq<char>) -> Seq<char> {
    "call void @"@ + name + "("@ + args + ")"@
}

/// `r = call <ret> (<param types>)* <fn_ptr>(<args>)`
pub open spec fn call_indirect_text(
    r: Seq<char>,
    ret: Seq<char>,
    params: Seq<char>,
    fn_ptr: Seq<char>,
    args: Seq<char>,
) -> Seq<char> {
    r + " = call "@ + ret + " ("@ + params + ")* "@ + fn_ptr + "("@ + args + ")"@
}

/// `br label %<target>`
pub open spec fn br_text(target: Seq<char>) -> Seq<char> {
    "br label %"@ + target
}

/// `br i1 <cond>, label %<t>, label %<f>`
pub open spec fn cond_br_text(cond: Seq<char>, t: Seq<char>, f: Seq<char>) -> Seq<char> {
    "br i1 "@ + cond + ", label %"@ + t + ", label %"@ + f
}

/// `ret <ty> <val>`
pub open spec fn ret_text(ty: Seq<char>, val: Seq<char>) -> Seq<char> {
    "ret "@ + ty + " "@ + val
}

/// `r = <kw> <base>, ptr <ptr>, <indices>` (the two getelementptr forms)
pub open spec fn gep_text(r: Seq<char>, kw: Seq<char>, base: Seq<char>, ptr: Seq<char>, indices: Seq<char>) -> Seq<char> {
    r + " = "@ + kw + " "@ + base + ", ptr "@ + ptr + ", "@ + indices
}

/// `r = phi <ty> <incoming>`
pub open spec fn phi_text(r: Seq<char>, ty: Seq<char>, incoming: Seq<char>) -> Seq<char> {
    r + " = phi "@ + ty + " "@ + incoming
}

/// The null-guard select of `safe_load_i32_from_ptr`.
pub open spec fn guard_select_text(r: Seq<char>, is_bad: Seq<char>, handle_ptr: Seq<char>) -> Seq<char> {
    r + " = select i1 "@ + is_bad + ", ptr @perry_null_guard_zero, ptr "@ + handle_ptr
}

/// Block state after `toint32(val)` with the counter at `r0` on entry.
pub open spec fn toint32_view(b: BlockView, r0: nat, val: Seq<char>) -> BlockView {
    b.emit(fcmp_text(reg_name(r0 + 1), "uno"@, val, "0.0"@))
        .emit(call_text(reg_name(r0 + 2), DOUBLE@, "llvm.fabs.f64"@, DOUBLE@ + " "@ + val))
        .emit(fcmp_text(reg_name(r0 + 3), "oeq"@, reg_name(r0 + 2), "0x7FF0000000000000"@))
        .emit(ibin_text(reg_name(r0 + 4), "or"@, I1@, reg_name(r0 + 1), reg_name(r0 + 3)))
        .emit(select_text(reg_name(r0 + 5), I1@, reg_name(r0 + 4), DOUBLE@, "0.0"@, val))
        .emit(conv_text(reg_name(r0 + 6), "fptosi"@, DOUBLE@, reg_name(r0 + 5), I64@))
        .emit(conv_text(reg_name(r0 + 7), "trunc"@, I64@, reg_name(r0 + 6), I32@))
}

/// Block state after `toint32_fast(val)` with the counter at `r0` on entry.
pub open spec fn toint32_fast_view(b: BlockView, r0: nat, val: Seq<char>) -> BlockView {
    b.emit(conv_text(reg_name(r0 + 1), "fptosi"@, DOUBLE@, val, I64@))
        .emit(conv_text(reg_name(r0 + 2), "trunc"@, I64@, reg_name(r0 + 1), I32@))
}

/// Block state after `safe_load_i32_from_ptr(handle)` with the counter at
/// `r0` on entry.
pub open spec fn safe_load_view(b: BlockView, r0: nat, handle: Seq<char>) -> BlockView {
    b.emit(ibin_text(reg_name(r0 + 1), "icmp ult"@, I64@, handle, "4096"@))
        .emit(conv_text(reg_name(r0 + 2), "inttoptr"@, I64@, handle, "ptr"@))
        .emit(guard_select_text(reg_name(r0 + 3), reg_name(r0 + 1), reg_name(r0 + 2)))
        .emit(load_text(reg_name(r0 + 4), "load"@, I32@, reg_name(r0 + 3)) + ", !invariant.load !0"@)
}

/// Register names are unique: distinct counter values give distinct names,
/// so registers drawn from one counter never collide.
pub proof fn lemma_reg_names_distinct(m: nat, n: nat)
    requires
        m != n,
    ensures
        reg_name(m) != reg_name(n),
{
    if reg_name(m) == reg_name(n) {
        reveal_strlit("%r");
        assert(reg_name(m).skip(2) =~= dec(m));
        assert(reg_name(n).skip(2) =~= dec(n));
        lemma_dec_injective(m, n);
    }
}

/// Once a terminator has been emitted, further emits change nothing: the
/// block keeps its instructions and stays terminated.
pub proof fn lemma_terminated_block_frozen(b: BlockView, line: Seq<char>)
    requires
        b.terminated,
    ensures
        b.emit(line) == b,
        b.emit(line).terminate() == b,
{
}

/// Emitting never clears the terminated flag and never drops or changes
/// an instruction already in the block; it only appends.
pub proof fn lemma_emit_appends(b: BlockView, line: Seq<char>)
    ensures
        b.emit(line).terminated == b.terminated,
        b.emit(line).label == b.label,
        b.instrs.is_prefix_of(b.emit(line).instrs),
        b.emit(line).instrs.len() <= b.instrs.len() + 1,
{
    assert(b.instrs.is_prefix_of(b.emit(line).instrs));
}

/// One call on a block, as it shows in the block's contract: an
/// instruction line appended, or a terminator line appended after which
/// the block counts as terminated. Every builder method of `LlBlock` is a
/// run of such steps: `emit_raw`, `store` and each single-instruction
/// builder one `Emit`, `toint32_fast` two, `safe_load_i32_from_ptr` four,
/// `toint32` seven, `fresh_reg`/`next_reg` none, and `br`, `cond_br`,
/// `ret`, `ret_void` and `unreachable` one `Terminate`.
pub enum BlockStep {
    Emit(Seq<char>),
    Terminate(Seq<char>),
}

impl BlockView {
    pub open spec fn step(self, s: BlockStep) -> BlockView {
        match s {
            BlockStep::Emit(line) => self.emit(line),
            BlockStep::Terminate(line) => self.emit(line).terminate(),
        }
    }

    /// The block after a run of calls, first to last.
    pub open spec fn run(self, steps: Seq<BlockStep>) -> BlockView
        decreases steps.len(),
    {
        if steps.len() == 0 {
            self
        } else {
            self.step(steps[0]).run(steps.drop_first())
        }
    }
}

/// Whether a run of calls contains a terminator.
pub open spec fn has_terminator(steps: Seq<BlockStep>) -> bool {
    exists|i: int| 0 <= i < steps.len() && #[trigger] steps[i] is Terminate
}

/// The lines a run of calls leaves in an open block: each call's line,
/// indented, up to and including the first terminator; nothing after it.
pub open spec fn live_lines(steps: Seq<BlockStep>) -> Seq<Seq<char>>
    decreases steps.len(),
{
    if steps.len() == 0 {
        Seq::empty()
    } else {
        match steps[0] {
            BlockStep::Emit(line) => seq!["  "@ + line] + live_lines(steps.drop_first()),
            BlockStep::Terminate(line) => seq!["  "@ + line],
        }
    }
}

/// Once a block is terminated, no call changes it.
pub proof fn lemma_terminated_run_frozen(b: BlockView, steps: Seq<BlockStep>)
    requires
        b.terminated,
    ensures
        b.run(steps) == b,
    decreases steps.len(),
{
    if steps.len() > 0 {
        lemma_terminated_run_frozen(b.step(steps[0]), steps.drop_first());
    }
}

/// What a run of calls does to an open block: the label stays, the
/// instruction list grows by exactly `live_lines(steps)` (so the
/// instruction count is the old count plus the number of calls up to and
/// including the first terminator), and the block is terminated exactly
/// when some call in the run was a terminator.
pub proof fn lemma_block_run(b: BlockView, steps: Seq<BlockStep>)
    requires
        !b.terminated,
    ensures
        b.run(steps).label == b.label,
        b.run(steps).instrs == b.instrs + live_lines(steps),
        b.run(steps).terminated <==> has_terminator(steps),
    decreases steps.len(),
{
    if steps.len() == 0 {
        assert(b.instrs + live_lines(steps) =~= b.instrs);
    } else {
        let rest = steps.drop_first();
        match steps[0] {
            BlockStep::Emit(line) => {
                let b1 = b.step(steps[0]);
                lemma_block_run(b1, rest);
                assert(b1.instrs + live_lines(rest) =~= b.instrs + live_lines(steps));
                if has_terminator(rest) {
                    let i = choose|i: int| 0 <= i < rest.len() && #[trigger] rest[i] is Terminate;
                    assert(steps[i + 1] is Terminate);
                }
                if has_terminator(steps) {
                    let i = choose|i: int| 0 <= i < steps.len() && #[trigger] steps[i] is Terminate;
                    assert(rest[i - 1] is Terminate);
                }
            },
            BlockStep::Terminate(line) => {
                let b1 = b.step(steps[0]);
                lemma_terminated_run_frozen(b1, rest);
                assert(steps[0] is Terminate);
                assert(b1.instrs =~= b.instrs + live_lines(steps));
            },
        }
    }
}

/// Starting from a new block: the block is terminated exactly when one of
/// the calls was a terminator, and its instruction count is the number of
/// calls made while it was still open.
pub proof fn lemma_new_block_history(label: Seq<char>, steps: Seq<BlockStep>)
    ensures
        ({
            let b = BlockView { label, instrs: Seq::empty(), terminated: false }.run(steps);
            &&& b.terminated <==> has_terminator(steps)
            &&& b.instrs == live_lines(steps)
            &&& b.instrs.len() == live_lines(steps).len()
        }),
{
    let b0 = BlockView { label, instrs: Seq::empty(), terminated: false };
    lemma_block_run(b0, steps);
    assert(b0.instrs + live_lines(steps) =~= live_lines(steps));
}

/// The composite builders are runs of plain steps: `toint32_fast` two
/// emits, `safe_load_i32_from_ptr` four, `toint32` seven.
pub proof fn lemma_composites_are_runs(b: BlockView, r0: nat, v: Seq<char>)
    ensures
        toint32_fast_view(b, r0, v) == b.run(
            seq![
                BlockStep::Emit(conv_text(reg_name(r0 + 1), "fptosi"@, DOUBLE@, v, I64@)),
                BlockStep::Emit(conv_text(reg_name(r0 + 2), "trunc"@, I64@, reg_name(r0 + 1), I32@)),
            ],
        ),
        safe_load_view(b, r0, v) == b.run(
            seq![
                BlockStep::Emit(ibin_text(reg_name(r0 + 1), "icmp ult"@, I64@, v, "4096"@)),
                BlockStep::Emit(conv_text(reg_name(r0 + 2), "inttoptr"@, I64@, v, "ptr"@)),
                BlockStep::Emit(guard_select_text(reg_name(r0 + 3), reg_name(r0 + 1), reg_name(r0 + 2))),
                BlockStep::Emit(load_text(reg_name(r0 + 4), "load"@, I32@, reg_name(r0 + 3)) + ", !invariant.load !0"@),
            ],
        ),
        toint32_view(b, r0, v) == b.run(
            seq![
                BlockStep::Emit(fcmp_text(reg_name(r0 + 1), "uno"@, v, "0.0"@)),
                BlockStep::Emit(call_text(reg_name(r0 + 2), DOUBLE@, "llvm.fabs.f64"@, DOUBLE@ + " "@ + v)),
                BlockStep::Emit(fcmp_text(reg_name(r0 + 3), "oeq"@, reg_name(r0 + 2), "0x7FF0000000000000"@)),
                BlockStep::Emit(ibin_text(reg_name(r0 + 4), "or"@, I1@, reg_name(r0 + 1), reg_name(r0 + 3))),
                BlockStep::Emit(select_text(reg_name(r0 + 5), I1@, reg_name(r0 + 4), DOUBLE@, "0.0"@, v)),
                BlockStep::Emit(conv_text(reg_name(r0 + 6), "fptosi"@, DOUBLE@, reg_name(r0 + 5), I64@)),
                BlockStep::Emit(conv_text(reg_name(r0 + 7), "trunc"@, I64@, reg_name(r0 + 6), I32@)),
            ],
        ),
{
    reveal_with_fuel(BlockView::run, 8);
    let s2 = seq![
        BlockStep::Emit(conv_text(reg_name(r0 + 1), "fptosi"@, DOUBLE@, v, I64@)),
        BlockStep::Emit(conv_text(reg_name(r0 + 2), "trunc"@, I64@, reg_name(r0 + 1), I32@)),
    ];
    assert(s2.drop_first().drop_first() =~= Seq::<BlockStep>::empty());
    let s4 = seq![
        BlockStep::Emit(ibin_text(reg_name(r0 + 1), "icmp ult"@, I64@, v, "4096"@)),
        BlockStep::Emit(conv_text(reg_name(r0 + 2), "inttoptr"@, I64@, v, "ptr"@)),
        BlockStep::Emit(guard_select_text(reg_name(r0 + 3), reg_name(r0 + 1), reg_name(r0 + 2))),
        BlockStep::Emit(load_text(reg_name(r0 + 4), "load"@, I32@, reg_name(r0 + 3)) + ", !invariant.load !0"@),
    ];
    assert(s4.drop_first().drop_first().drop_first().drop_first() =~= Seq::<BlockStep>::empty());
    let s7 = seq![
        BlockStep::Emit(fcmp_text(reg_name(r0 + 1), "uno"@, v, "0.0"@)),
        BlockStep::Emit(call_text(reg_name(r0 + 2), DOUBLE@, "llvm.fabs.f64"@, DOUBLE@ + " "@ + v)),
        BlockStep::Emit(fcmp_text(reg_name(r0 + 3), "oeq"@, reg_name(r0 + 2), "0x7FF0000000000000"@)),
        BlockStep::Emit(ibin_text(reg_name(r0 + 4), "or"@, I1@, reg_name(r0 + 1), reg_name(r0 + 3))),
        BlockStep::Emit(select_text(reg_name(r0 + 5), I1@, reg_name(r0 + 4), DOUBLE@, "0.0"@, v)),
        BlockStep::Emit(conv_text(reg_name(r0 + 6), "fptosi"@, DOUBLE@, reg_name(r0 + 5), I64@)),
        BlockStep::Emit(conv_text(reg_name(r0 + 7), "trunc"@, I64@, reg_name(r0 + 6), I32@)),
    ];
    assert(s7.drop_first().drop_first().drop_first().drop_first().drop_first().drop_first().drop_first()
        =~= Seq::<BlockStep>::empty());
}

/// Abstract state of a block: its label, its instruction lines (each with
/// its two-space indent) and whether a terminator has been emitted.
pub struct BlockView {
    pub label: Seq<char>,
    pub instrs: Seq<Seq<char>>,
    pub terminated: bool,
}

impl BlockView {
    /// Appends `line` (indented by two spaces), unless the block is
    /// already terminated, in which case nothing changes.
    pub open spec fn emit(self, line: Seq<char>) -> BlockView {
        if self.terminated {
            self
        } else {
            BlockView { instrs: self.instrs.push("  "@ + line), ..self }
        }
    }

    /// Marks the block terminated.
    pub open spec fn terminate(self) -> BlockView {
        BlockView { terminated: true, ..self }
    }

    /// The block's text: `label:` then the instructions, one per line.
    pub open spec fn ir(self) -> Seq<char> {
        self.label + ":\n"@ + join(self.instrs, "\n"@)
    }
}

/// Function-wide register counter shared between all blocks in a function.
///
/// Registers are `%r1`, `%r2`, … unique across the entire function body —
/// LLVM requires SSA value names to be unique per function, not per block.
pub struct RegCounter {
    value: u32,
}

impl View for RegCounter {
    type V = nat;

    /// The number of registers handed out so far.
    closed spec fn view(&self) -> nat {
        self.value as nat
    }
}

impl RegCounter {
    pub fn new() -> (c: Self)
        ensures
            c@ == 0,
    {
        RegCounter { value: 0 }
    }

    /// Hands out the next register number: 1, 2, 3, ...
    pub fn next(&mut self) -> (v: u32)
        requires
            old(self)@ < u32::MAX,
        ensures
            final(self)@ == old(self)@ + 1,
            v == final(self)@,
    {
        self.value = self.value + 1;
        self.value
    }

    /// The next register's name, `%r<n>`.
    pub fn next_name(&mut self) -> (r: String)
        requires
            old(self)@ < u32::MAX,
        ensures
            reg_step(old(self)@, final(self)@, r@),
    {
        let n = self.next();
        let mut s = String::new();
        s.append("%r");
        push_dec(&mut s, n as u64);
        assert(s@ =~= reg_name(n as nat));
        s
    }
}

impl Default for RegCounter {
    fn default() -> (c: Self)
        ensures
            c@ == 0,
    {
        RegCounter { value: 0 }
    }
}


pub struct LlBlock {
    pub label: String,
    instructions: Vec<String>,
    terminated: bool,
}

impl View for LlBlock {
    type V = BlockView;

    closed spec fn view(&self) -> BlockView {
        BlockView {
            label: self.label@,
            instrs: strings_view(self.instructions@),
            terminated: self.terminated,
        }
    }
}

/// Builds `"  " + line`.
pub(crate) fn indent(line: &str) -> (s: String)
    ensures
        s@ == "  "@ + line@,
{
    let mut s = String::new();
    s.append("  ");
    s.append(line);
    assert(s@ =~= "  "@ + line@);
    s
}


pub(crate) fn fbin_line(r: &str, op: &str, a: &str, b: &str) -> (s: String)
    ensures
        s@ == fbin_text(r@, op@, a@, b@),
{
    let mut s = String::new();
    s.append(r);
    s.append(" = ");
    s.append(op);
    s.append(" reassoc contract double ");
    s.append(a);
    s.append(", ");
    s.append(b);
    assert(s@ =~= fbin_text(r@, op@, a@, b@));
    s
}

pub(crate) fn fneg_line(r: &str, a: &str) -> (s: String)
    ensures
        s@ == fneg_text(r@, a@),
{
    let mut s = String::new();
    s.append(r);
    s.append(" = fneg reassoc contract double ");
    s.append(a);
    assert(s@ =~= fneg_text(r@, a@));
    s
}

pub(crate) fn fcmp_line(r: &str, cond: &str, a: &str, b: &str) -> (s: String)
    ensures
        s@ == fcmp_text(r@, cond@, a@, b@),
{
    let mut s = String::new();
    s.append(r);
    s.append(" = fcmp ");
    s.append(cond);
    s.append(" double ");
    s.append(a);
    s.append(", ");
    s.append(b);
    assert(s@ =~= fcmp_text(r@, cond@, a@, b@));
    s
}

pub(crate) fn ibin_line(r: &str, op: &str, ty: &str, a: &str, b: &str) -> (s: String)
    ensures
        s@ == ibin_text(r@, op@, ty@, a@, b@),
{
    let mut s = String::new();
    s.append(r);
    s.append(" = ");
    s.append(op);
    s.append(" ");
    s.append(ty);
    s.append(" ");
    s.append(a);
    s.append(", ");
    s.append(b);
    assert(s@ =~= ibin_text(r@, op@, ty@, a@, b@));
    s
}

pub(crate) fn alloca_line(r: &str, ty: &str) -> (s: String)
    ensures
        s@ == alloca_text(r@, ty@),
{
    let mut s = String::new();
    s.append(r);
    s.append(" = alloca ");
    s.append(ty);
    assert(s@ =~= alloca_text(r@, ty@));
    s
}

pub(crate) fn load_line(r: &str, kw: &str, ty: &str, ptr: &str) -> (s: String)
    ensures
        s@ == load_text(r@, kw@, ty@, ptr@),
{
    let mut s = String::new();
    s.append(r);
    s.append(" = ");
    s.append(kw);
    s.append(" ");
    s.append(ty);
    s.append(", ptr ");
    s.append(ptr);
    assert(s@ =~= load_text(r@, kw@, ty@, ptr@));
    s
}

pub(crate) fn store_line(kw: &str, ty: &str, val: &str, ptr: &str) -> (s: String)
    ensures
        s@ == store_text(kw@, ty@, val@, ptr@),
{
    let mut s = String::new();
    s.append(kw);
    s.append(" ");
    s.append(ty);
    s.append(" ");
    s.append(val);
    s.append(", ptr ");
    s.append(ptr);
    assert(s@ =~= store_text(kw@, ty@, val@, ptr@));
    s
}

pub(crate) fn conv_line(r: &str, op: &str, from: &str, val: &str, to: &str) -> (s: String)
    ensures
        s@ == conv_text(r@, op@, from@, val@, to@),
{
    let mut s = String::new();
    s.append(r);
    s.append(" = ");
    s.append(op);
    s.append(" ");
    s.append(from);
    s.append(" ");
    s.append(val);
    s.append(" to ");
    s.append(to);
    assert(s@ =~= conv_text(r@, op@, from@, val@, to@));
    s
}

pub(crate) fn select_line(r: &str, cty: &str, cond: &str, ty: &str, t: &str, f: &str) -> (s: String)
    ensures
        s@ == select_text(r@, cty@, cond@, ty@, t@, f@),
{
    let mut s = String::new();
    s.append(r);
    s.append(" = select ");
    s.append(cty);
    s.append(" ");
    s.append(cond);
    s.append(", ");
    s.append(ty);
    s.append(" ");
    s.append(t);
    s.append(", ");
    s.append(ty);
    s.append(" ");
    s.append(f);
    assert(s@ =~= select_text(r@, cty@, cond@, ty@, t@, f@));
    s
}

pub(crate) fn call_line(r: &str, ret: &str, name: &str, args: &str) -> (s: String)
    ensures
        s@ == call_text(r@, ret@, name@, args@),
{
    let mut s = String::new();
    s.append(r);
    s.append(" = call ");
    s.append(ret);
    s.append(" @");
    s.append(name);
    s.append("(");
    s.append(args);
    s.append(")");
    assert(s@ =~= call_text(r@, ret@, name@, args@));
    s
}

pub(crate) fn call_void_line(name: &str, args: &str) -> (s: String)
    ensures
        s@ == call_void_text(name@, args@),
{
    let mut s = String::new();
    s.append("call void @");
    s.append(name);
    s.append("(");
    s.append(args);
    s.append(")");
    assert(s@ =~= call_void_text(name@, args@));
    s
}

pub(crate) fn call_indirect_line(r: &str, ret: &str, params: &str, fn_ptr: &str, args: &str) -> (s: String)
    ensures
        s@ == call_indirect_text(r@, ret@, params@, fn_ptr@, args@),
{
    let mut s = String::new();
    s.append(r);
    s.append(" = call ");
    s.append(ret);
    s.append(" (");
    s.append(params);
    s.append(")* ");
    s.append(fn_ptr);
    s.append("(");
    s.append(args);
    s.append(")");
    assert(s@ =~= call_indirect_text(r@, ret@, params@, fn_ptr@, args@));
    s
}

pub(crate) fn br_line(target: &str) -> (s: String)
    ensures
        s@ == br_text(target@),
{
    let mut s = String::new();
    s.append("br label %");
    s.append(target);
    assert(s@ =~= br_text(target@));
    s
}

pub(crate) fn cond_br_line(cond: &str, t: &str, f: &str) -> (s: String)
    ensures
        s@ == cond_br_text(cond@, t@, f@),
{
    let mut s = String::new();
    s.append("br i1 ");
    s.append(cond);
    s.append(", label %");
    s.append(t);
    s.append(", label %");
    s.append(f);
    assert(s@ =~= cond_br_text(cond@, t@, f@));
    s
}

pub(crate) fn ret_line(ty: &str, val: &str) -> (s: String)
    ensures
        s@ == ret_text(ty@, val@),
{
    let mut s = String::new();
    s.append("ret ");
    s.append(ty);
    s.append(" ");
    s.append(val);
    assert(s@ =~= ret_text(ty@, val@));
    s
}

pub(crate) fn gep_line(r: &str, kw: &str, base: &str, ptr: &str, indices: &str) -> (s: String)
    ensures
        s@ == gep_text(r@, kw@, base@, ptr@, indices@),
{
    let mut s = String::new();
    s.append(r);
    s.append(" = ");
    s.append(kw);
    s.append(" ");
    s.append(base);
    s.append(", ptr ");
    s.append(ptr);
    s.append(", ");
    s.append(indices);
    assert(s@ =~= gep_text(r@, kw@, base@, ptr@, indices@));
    s
}

pub(crate) fn phi_line(r: &str, ty: &str, incoming: &str) -> (s: String)
    ensures
        s@ == phi_text(r@, ty@, incoming@),
{
    let mut s = String::new();
    s.append(r);
    s.append(" = phi ");
    s.append(ty);
    s.append(" ");
    s.append(incoming);
    assert(s@ =~= phi_text(r@, ty@, incoming@));
    s
}

pub(crate) fn guard_select_line(r: &str, is_bad: &str, handle_ptr: &str) -> (s: String)
    ensures
        s@ == guard_select_text(r@, is_bad@, handle_ptr@),
{
    let mut s = String::new();
    s.append(r);
    s.append(" = select i1 ");
    s.append(is_bad);
    s.append(", ptr @perry_null_guard_zero, ptr ");
    s.append(handle_ptr);
    assert(s@ =~= guard_select_text(r@, is_bad@, handle_ptr@));
    s
}

/// Renders `args` as an LLVM operand list: `t1 v1, t2 v2, ...`.
pub fn format_args(args: &[(LlvmType, &str)]) -> (s: String)
    ensures
        s@ == typed_list(args@),
{
    let ghost items = typed_items(args@);
    let mut s = String::new();
    let mut i: usize = 0;
    while i < args.len()
        invariant
            i <= args.len(),
            items == typed_items(args@),
            s@ == join(items.take(i as int), ", "@),
        decreases args.len() - i,
    {
        assert(items.take(i + 1).drop_last() =~= items.take(i as int));
        if i > 0 {
            s.append(", ");
        }
        let (t, v) = args[i];
        s.append(t);
        s.append(" ");
        s.append(v);
        i = i + 1;
        assert(s@ =~= join(items.take(i as int), ", "@));
    }
    assert(items.take(args.len() as int) =~= items);
    s
}

/// The operand types of `args`, joined with `", "`.
fn format_types(args: &[(LlvmType, &str)]) -> (s: String)
    ensures
        s@ == type_list(args@),
{
    let ghost items = type_items(args@);
    let mut s = String::new();
    let mut i: usize = 0;
    while i < args.len()
        invariant
            i <= args.len(),
            items == type_items(args@),
            s@ == join(items.take(i as int), ", "@),
        decreases args.len() - i,
    {
        assert(items.take(i + 1).drop_last() =~= items.take(i as int));
        if i > 0 {
            s.append(", ");
        }
        let (t, _v) = args[i];
        s.append(t);
        i = i + 1;
        assert(s@ =~= join(items.take(i as int), ", "@));
    }
    assert(items.take(args.len() as int) =~= items);
    s
}

/// The incoming list of a phi: `[ v1, %l1 ], [ v2, %l2 ], ...`.
fn format_incoming(incoming: &[(&str, &str)]) -> (s: String)
    ensures
        s@ == phi_list(incoming@),
{
    let ghost items = phi_items(incoming@);
    let mut s = String::new();
    let mut i: usize = 0;
    while i < incoming.len()
        invariant
            i <= incoming.len(),
            items == phi_items(incoming@),
            s@ == join(items.take(i as int), ", "@),
        decreases incoming.len() - i,
    {
        assert(items.take(i + 1).drop_last() =~= items.take(i as int));
        if i > 0 {
            s.append(", ");
        }
        let (v, l) = incoming[i];
        s.append("[ ");
        s.append(v);
        s.append(", %");
        s.append(l);
        s.append(" ]");
        i = i + 1;
        assert(s@ =~= join(items.take(i as int), ", "@));
    }
    assert(items.take(incoming.len() as int) =~= items);
    s
}

impl LlBlock {
    pub fn new(label: &str) -> (b: Self)
        ensures
            b@ == (BlockView { label: label@, instrs: Seq::empty(), terminated: false }),
    {
        let b = LlBlock { label: label.to_owned(), instructions: Vec::new(), terminated: false };
        assert(b@.instrs =~= Seq::<Seq<char>>::empty());
        b
    }

    /// The block's label.
    pub fn label(&self) -> (l: &str)
        ensures
            l@ == self@.label,
    {
        self.label.as_str()
    }

    /// Replaces the block's label (the public `label` field, written from
    /// verified code).
    pub fn set_label(&mut self, label: &str)
        ensures
            final(self)@ == (BlockView { label: label@, ..old(self)@ }),
    {
        self.label = label.to_owned();
    }

    pub fn is_terminated(&self) -> (t: bool)
        ensures
            t == self@.terminated,
    {
        self.terminated
    }

    /// Allocate a fresh SSA register name in the enclosing function's
    /// virtual register pool (e.g. `"%r42"`). Pair with `emit_raw` when
    /// you need a custom instruction.
    pub fn fresh_reg(&mut self, regs: &mut RegCounter) -> (r: String)
        requires
            old(regs)@ < u32::MAX,
        ensures
            reg_step(old(regs)@, final(regs)@, r@),
            final(self)@ == old(self)@,
    {
        regs.next_name()
    }

    /// Appends `"  " + line`; after a terminator nothing more is appended
    /// (LLVM rejects instructions after a terminator).
    fn emit(&mut self, line: &str)
        ensures
            final(self)@ == old(self)@.emit(line@),
    {
        if self.terminated {
            return;
        }
        let s = indent(line);
        self.instructions.push(s);
        assert(self@.instrs =~= old(self)@.instrs.push("  "@ + line@));
    }

    /// Like `fresh_reg`; the block itself is left unchanged.
    pub fn next_reg(&self, regs: &mut RegCounter) -> (r: String)
        requires
            old(regs)@ < u32::MAX,
        ensures
            reg_step(old(regs)@, final(regs)@, r@),
    {
        regs.next_name()
    }

    pub fn emit_raw(&mut self, line: &str)
        ensures
            final(self)@ == old(self)@.emit(line@),
    {
        self.emit(line);
    }

    /// Number of instructions currently in this block.
    pub fn instruction_count(&self) -> (n: usize)
        ensures
            n == self@.instrs.len(),
    {
        self.instructions.len()
    }

    /// The raw instruction strings (each already prefixed with two leading
    /// spaces, no trailing newline), in order.
    pub fn instructions_iter(&self) -> (v: &[String])
        ensures
            strings_view(v@) == self@.instrs,
    {
        self.instructions.as_slice()
    }

    pub fn fadd(&mut self, regs: &mut RegCounter, a: &str, b: &str) -> (r: String)
        requires
            old(regs)@ < u32::MAX,
        ensures
            reg_step(old(regs)@, final(regs)@, r@),
            final(self)@ == old(self)@.emit(fbin_text(r@, "fadd"@, a@, b@)),
    {
        let r = regs.next_name();
        let line = fbin_line(r.as_str(), "fadd", a, b);
        self.emit(line.as_str());
        r
    }

    pub fn fsub(&mut self, regs: &mut RegCounter, a: &str, b: &str) -> (r: String)
        requires
            old(regs)@ < u32::MAX,
        ensures
            reg_step(old(regs)@, final(regs)@, r@),
            final(self)@ == old(self)@.emit(fbin_text(r@, "fsub"@, a@, b@)),
    {
        let r = regs.next_name();
        let line = fbin_line(r.as_str(), "fsub", a, b);
        self.emit(line.as_str());
        r
    }

    pub fn fmul(&mut self, regs: &mut RegCounter, a: &str, b: &str) -> (r: String)
        requires
            old(regs)@ < u32::MAX,
        ensures
            reg_step(old(regs)@, final(regs)@, r@),
            final(self)@ == old(self)@.emit(fbin_text(r@, "fmul"@, a@, b@)),
    {
        let r = regs.next_name();
        let line = fbin_line(r.as_str(), "fmul", a, b);
        self.emit(line.as_str());
        r
    }

    pub fn fdiv(&mut self, regs: &mut RegCounter, a: &str, b: &str) -> (r: String)
        requires
            old(regs)@ < u32::MAX,
        ensures
            reg_step(old(regs)@, final(regs)@, r@),
            final(self)@ == old(self)@.emit(fbin_text(r@, "fdiv"@, a@, b@)),
    {
        let r = regs.next_name();
        let line = fbin_line(r.as_str(), "fdiv", a, b);
        self.emit(line.as_str());
        r
    }

    pub fn frem(&mut self, regs: &mut RegCounter, a: &str, b: &str) -> (r: String)
        requires
            old(regs)@ < u32::MAX,
        ensures
            reg_step(old(regs)@, final(regs)@, r@),
            final(self)@ == old(self)@.emit(fbin_text(r@, "frem"@, a@, b@)),
    {
        let r = regs.next_name();
        let line = fbin_line(r.as_str(), "frem", a, b);
        self.emit(line.as_str());
        r
    }

    pub fn fneg(&mut self, regs: &mut RegCounter, a: &str) -> (r: String)
        requires
            old(regs)@ < u32::MAX,
        ensures
            reg_step(old(regs)@, final(regs)@, r@),
            final(self)@ == old(self)@.emit(fneg_text(r@, a@)),
    {
        let r = regs.next_name();
        let line = fneg_line(r.as_str(), a);
        self.emit(line.as_str());
        r
    }

    /// Float comparison. `cond` is an LLVM predicate string: `olt`, `ole`,
    /// `ogt`, `oge`, `oeq`, `one`, `ord`, `uno`, …
    pub fn fcmp(&mut self, regs: &mut RegCounter, cond: &str, a: &str, b: &str) -> (r: String)
        requires
            old(regs)@ < u32::MAX,
        ensures
            reg_step(old(regs)@, final(regs)@, r@),
            final(self)@ == old(self)@.emit(fcmp_text(r@, cond@, a@, b@)),
    {
        let r = regs.next_name();
        let line = fcmp_line(r.as_str(), cond, a, b);
        self.emit(line.as_str());
        r
    }

    pub fn icmp_eq(&mut self, regs: &mut RegCounter, ty: LlvmType, a: &str, b: &str) -> (r: String)
        requires
            old(regs)@ < u32::MAX,
        ensures
            reg_step(old(regs)@, final(regs)@, r@),
            final(self)@ == old(self)@.emit(ibin_text(r@, "icmp eq"@, ty@, a@, b@)),
    {
        let r = regs.next_name();
        let line = ibin_line(r.as_str(), "icmp eq", ty, a, b);
        self.emit(line.as_str());
        r
    }

    pub fn icmp_ne(&mut self, regs: &mut RegCounter, ty: LlvmType, a: &str, b: &str) -> (r: String)
        requires
            old(regs)@ < u32::MAX,
        ensures
            reg_step(old(regs)@, final(regs)@, r@),
            final(self)@ == old(self)@.emit(ibin_text(r@, "icmp ne"@, ty@, a@, b@)),
    {
        let r = regs.next_name();
        let line = ibin_line(r.as_str(), "icmp ne", ty, a, b);
        self.emit(line.as_str());
        r
    }

    pub fn icmp_slt(&mut self, regs: &mut RegCounter, ty: LlvmType, a: &str, b: &str) -> (r: String)
        requires
            old(regs)@ < u32::MAX,
        ensures
            reg_step(old(regs)@, final(regs)@, r@),
            final(self)@ == old(self)@.emit(ibin_text(r@, "icmp slt"@, ty@, a@, b@)),
    {
        let r = regs.next_name();
        let line = ibin_line(r.as_str(), "icmp slt", ty, a, b);
        self.emit(line.as_str());
        r
    }

    pub fn icmp_sgt(&mut self, regs: &mut RegCounter, ty: LlvmType, a: &str, b: &str) -> (r: String)
        requires
            old(regs)@ < u32::MAX,
        ensures
            reg_step(old(regs)@, final(regs)@, r@),
            final(self)@ == old(self)@.emit(ibin_text(r@, "icmp sgt"@, ty@, a@, b@)),
    {
        let r = regs.next_name();
        let line = ibin_line(r.as_str(), "icmp sgt", ty, a, b);
        self.emit(line.as_str());
        r
    }

    pub fn icmp_sle(&mut self, regs: &mut RegCounter, ty: LlvmType, a: &str, b: &str) -> (r: String)
        requires
            old(regs)@ < u32::MAX,
        ensures
            reg_step(old(regs)@, final(regs)@, r@),
            final(self)@ == old(self)@.emit(ibin_text(r@, "icmp sle"@, ty@, a@, b@)),
    {
        let r = regs.next_name();
        let line = ibin_line(r.as_str(), "icmp sle", ty, a, b);
        self.emit(line.as_str());
        r
    }

    pub fn icmp_ult(&mut self, regs: &mut RegCounter, ty: LlvmType, a: &str, b: &str) -> (r: String)
        requires
            old(regs)@ < u32::MAX,
        ensures
            reg_step(old(regs)@, final(regs)@, r@),
            final(self)@ == old(self)@.emit(ibin_text(r@, "icmp ult"@, ty@, a@, b@)),
    {
        let r = regs.next_name();
        let line = ibin_line(r.as_str(), "icmp ult", ty, a, b);
        self.emit(line.as_str());
        r
    }

    pub fn icmp_ule(&mut self, regs: &mut RegCounter, ty: LlvmType, a: &str, b: &str) -> (r: String)
        requires
            old(regs)@ < u32::MAX,
        ensures
            reg_step(old(regs)@, final(regs)@, r@),
            final(self)@ == old(self)@.emit(ibin_text(r@, "icmp ule"@, ty@, a@, b@)),
    {
        let r = regs.next_name();
        let line = ibin_line(r.as_str(), "icmp ule", ty, a, b);
        self.emit(line.as_str());
        r
    }

    pub fn icmp_ugt(&mut self, regs: &mut RegCounter, ty: LlvmType, a: &str, b: &str) -> (r: String)
        requires
            old(regs)@ < u32::MAX,
        ensures
            reg_step(old(regs)@, final(regs)@, r@),
            final(self)@ == old(self)@.emit(ibin_text(r@, "icmp ugt"@, ty@, a@, b@)),
    {
        let r = regs.next_name();
        let line = ibin_line(r.as_str(), "icmp ugt", ty, a, b);
        self.emit(line.as_str());
        r
    }

    pub fn icmp_sge(&mut self, regs: &mut RegCounter, ty: LlvmType, a: &str, b: &str) -> (r: String)
        requires
            old(regs)@ < u32::MAX,
        ensures
            reg_step(old(regs)@, final(regs)@, r@),
            final(self)@ == old(self)@.emit(ibin_text(r@, "icmp sge"@, ty@, a@, b@)),
    {
        let r = regs.next_name();
        let line = ibin_line(r.as_str(), "icmp sge", ty, a, b);
        self.emit(line.as_str());
        r
    }

    pub fn alloca(&mut self, regs: &mut RegCounter, ty: LlvmType) -> (r: String)
        requires
            old(regs)@ < u32::MAX,
        ensures
            reg_step(old(regs)@, final(regs)@, r@),
            final(self)@ == old(self)@.emit(alloca_text(r@, ty@)),
    {
        let r = regs.next_name();
        let line = alloca_line(r.as_str(), ty);
        self.emit(line.as_str());
        r
    }

    pub fn load(&mut self, regs: &mut RegCounter, ty: LlvmType, ptr: &str) -> (r: String)
        requires
            old(regs)@ < u32::MAX,
        ensures
            reg_step(old(regs)@, final(regs)@, r@),
            final(self)@ == old(self)@.emit(load_text(r@, "load"@, ty@, ptr@)),
    {
        let r = regs.next_name();
        let line = load_line(r.as_str(), "load", ty, ptr);
        self.emit(line.as_str());
        r
    }

    /// Load with `volatile` — prevents the optimizer from caching,
    /// reordering, or eliminating the load.
    pub fn load_volatile(&mut self, regs: &mut RegCounter, ty: LlvmType, ptr: &str) -> (r: String)
        requires
            old(regs)@ < u32::MAX,
        ensures
            reg_step(old(regs)@, final(regs)@, r@),
            final(self)@ == old(self)@.emit(load_text(r@, "load volatile"@, ty@, ptr@)),
    {
        let r = regs.next_name();
        let line = load_line(r.as_str(), "load volatile", ty, ptr);
        self.emit(line.as_str());
        r
    }

    /// Load tagged with `!invariant.load !0`: the loaded memory must not
    /// change between executions of the instruction (LLVM may hoist it).
    pub fn load_invariant(&mut self, regs: &mut RegCounter, ty: LlvmType, ptr: &str) -> (r: String)
        requires
            old(regs)@ < u32::MAX,
        ensures
            reg_step(old(regs)@, final(regs)@, r@),
            final(self)@ == old(self)@.emit(load_text(r@, "load"@, ty@, ptr@) + ", !invariant.load !0"@),
    {
        let r = regs.next_name();
        let mut line = load_line(r.as_str(), "load", ty, ptr);
        line.append(", !invariant.load !0");
        self.emit(line.as_str());
        r
    }

    pub fn store(&mut self, ty: LlvmType, val: &str, ptr: &str)
        ensures
            final(self)@ == old(self)@.emit(store_text("store"@, ty@, val@, ptr@)),
    {
        let line = store_line("store", ty, val, ptr);
        self.emit(line.as_str());
    }

    /// Store with `volatile` — prevents the optimizer from eliminating or
    /// reordering it.
    pub fn store_volatile(&mut self, ty: LlvmType, val: &str, ptr: &str)
        ensures
            final(self)@ == old(self)@.emit(store_text("store volatile"@, ty@, val@, ptr@)),
    {
        let line = store_line("store volatile", ty, val, ptr);
        self.emit(line.as_str());
    }

    pub fn bitcast_i64_to_double(&mut self, regs: &mut RegCounter, val: &str) -> (r: String)
        requires
            old(regs)@ < u32::MAX,
        ensures
            reg_step(old(regs)@, final(regs)@, r@),
            final(self)@ == old(self)@.emit(conv_text(r@, "bitcast"@, "i64"@, val@, "double"@)),
    {
        let r = regs.next_name();
        let line = conv_line(r.as_str(), "bitcast", "i64", val, "double");
        self.emit(line.as_str());
        r
    }

    pub fn bitcast_double_to_i64(&mut self, regs: &mut RegCounter, val: &str) -> (r: String)
        requires
            old(regs)@ < u32::MAX,
        ensures
            reg_step(old(regs)@, final(regs)@, r@),
            final(self)@ == old(self)@.emit(conv_text(r@, "bitcast"@, "double"@, val@, "i64"@)),
    {
        let r = regs.next_name();
        let line = conv_line(r.as_str(), "bitcast", "double", val, "i64");
        self.emit(line.as_str());
        r
    }

    pub fn sitofp(&mut self, regs: &mut RegCounter, from_ty: LlvmType, val: &str, to_ty: LlvmType) -> (r: String)
        requires
            old(regs)@ < u32::MAX,
        ensures
            reg_step(old(regs)@, final(regs)@, r@),
            final(self)@ == old(self)@.emit(conv_text(r@, "sitofp"@, from_ty@, val@, to_ty@)),
    {
        let r = regs.next_name();
        let line = conv_line(r.as_str(), "sitofp", from_ty, val, to_ty);
        self.emit(line.as_str());
        r
    }

    pub fn uitofp(&mut self, regs: &mut RegCounter, from_ty: LlvmType, val: &str, to_ty: LlvmType) -> (r: String)
        requires
            old(regs)@ < u32::MAX,
        ensures
            reg_step(old(regs)@, final(regs)@, r@),
            final(self)@ == old(self)@.emit(conv_text(r@, "uitofp"@, from_ty@, val@, to_ty@)),
    {
        let r = regs.next_name();
        let line = conv_line(r.as_str(), "uitofp", from_ty, val, to_ty);
        self.emit(line.as_str());
        r
    }

    pub fn fptosi(&mut self, regs: &mut RegCounter, from_ty: LlvmType, val: &str, to_ty: LlvmType) -> (r: String)
        requires
            old(regs)@ < u32::MAX,
        ensures
            reg_step(old(regs)@, final(regs)@, r@),
            final(self)@ == old(self)@.emit(conv_text(r@, "fptosi"@, from_ty@, val@, to_ty@)),
    {
        let r = regs.next_name();
        let line = conv_line(r.as_str(), "fptosi", from_ty, val, to_ty);
        self.emit(line.as_str());
        r
    }

    pub fn trunc(&mut self, regs: &mut RegCounter, from_ty: LlvmType, val: &str, to_ty: LlvmType) -> (r: String)
        requires
            old(regs)@ < u32::MAX,
        ensures
            reg_step(old(regs)@, final(regs)@, r@),
            final(self)@ == old(self)@.emit(conv_text(r@, "trunc"@, from_ty@, val@, to_ty@)),
    {
        let r = regs.next_name();
        let line = conv_line(r.as_str(), "trunc", from_ty, val, to_ty);
        self.emit(line.as_str());
        r
    }

    pub fn zext(&mut self, regs: &mut RegCounter, from_ty: LlvmType, val: &str, to_ty: LlvmType) -> (r: String)
        requires
            old(regs)@ < u32::MAX,
        ensures
            reg_step(old(regs)@, final(regs)@, r@),
            final(self)@ == old(self)@.emit(conv_text(r@, "zext"@, from_ty@, val@, to_ty@)),
    {
        let r = regs.next_name();
        let line = conv_line(r.as_str(), "zext", from_ty, val, to_ty);
        self.emit(line.as_str());
        r
    }

    pub fn sext(&mut self, regs: &mut RegCounter, from_ty: LlvmType, val: &str, to_ty: LlvmType) -> (r: String)
        requires
            old(regs)@ < u32::MAX,
        ensures
            reg_step(old(regs)@, final(regs)@, r@),
            final(self)@ == old(self)@.emit(conv_text(r@, "sext"@, from_ty@, val@, to_ty@)),
    {
        let r = regs.next_name();
        let line = conv_line(r.as_str(), "sext", from_ty, val, to_ty);
        self.emit(line.as_str());
        r
    }

    pub fn inttoptr(&mut self, regs: &mut RegCounter, from_ty: LlvmType, val: &str) -> (r: String)
        requires
            old(regs)@ < u32::MAX,
        ensures
            reg_step(old(regs)@, final(regs)@, r@),
            final(self)@ == old(self)@.emit(conv_text(r@, "inttoptr"@, from_ty@, val@, "ptr"@)),
    {
        let r = regs.next_name();
        let line = conv_line(r.as_str(), "inttoptr", from_ty, val, "ptr");
        self.emit(line.as_str());
        r
    }

    pub fn ptrtoint(&mut self, regs: &mut RegCounter, val: &str, to_ty: LlvmType) -> (r: String)
        requires
            old(regs)@ < u32::MAX,
        ensures
            reg_step(old(regs)@, final(regs)@, r@),
            final(self)@ == old(self)@.emit(conv_text(r@, "ptrtoint"@, "ptr"@, val@, to_ty@)),
    {
        let r = regs.next_name();
        let line = conv_line(r.as_str(), "ptrtoint", "ptr", val, to_ty);
        self.emit(line.as_str());
        r
    }

    pub fn add(&mut self, regs: &mut RegCounter, ty: LlvmType, a: &str, b: &str) -> (r: String)
        requires
            old(regs)@ < u32::MAX,
        ensures
            reg_step(old(regs)@, final(regs)@, r@),
            final(self)@ == old(self)@.emit(ibin_text(r@, "add"@, ty@, a@, b@)),
    {
        let r = regs.next_name();
        let line = ibin_line(r.as_str(), "add", ty, a, b);
        self.emit(line.as_str());
        r
    }

    pub fn sub(&mut self, regs: &mut RegCounter, ty: LlvmType, a: &str, b: &str) -> (r: String)
        requires
            old(regs)@ < u32::MAX,
        ensures
            reg_step(old(regs)@, final(regs)@, r@),
            final(self)@ == old(self)@.emit(ibin_text(r@, "sub"@, ty@, a@, b@)),
    {
        let r = regs.next_name();
        let line = ibin_line(r.as_str(), "sub", ty, a, b);
        self.emit(line.as_str());
        r
    }

    pub fn mul(&mut self, regs: &mut RegCounter, ty: LlvmType, a: &str, b: &str) -> (r: String)
        requires
            old(regs)@ < u32::MAX,
        ensures
            reg_step(old(regs)@, final(regs)@, r@),
            final(self)@ == old(self)@.emit(ibin_text(r@, "mul"@, ty@, a@, b@)),
    {
        let r = regs.next_name();
        let line = ibin_line(r.as_str(), "mul", ty, a, b);
        self.emit(line.as_str());
        r
    }

    /// Signed integer remainder.
    pub fn srem(&mut self, regs: &mut RegCounter, ty: LlvmType, a: &str, b: &str) -> (r: String)
        requires
            old(regs)@ < u32::MAX,
        ensures
            reg_step(old(regs)@, final(regs)@, r@),
            final(self)@ == old(self)@.emit(ibin_text(r@, "srem"@, ty@, a@, b@)),
    {
        let r = regs.next_name();
        let line = ibin_line(r.as_str(), "srem", ty, a, b);
        self.emit(line.as_str());
        r
    }

    /// Signed integer division.
    pub fn sdiv(&mut self, regs: &mut RegCounter, ty: LlvmType, a: &str, b: &str) -> (r: String)
        requires
            old(regs)@ < u32::MAX,
        ensures
            reg_step(old(regs)@, final(regs)@, r@),
            final(self)@ == old(self)@.emit(ibin_text(r@, "sdiv"@, ty@, a@, b@)),
    {
        let r = regs.next_name();
        let line = ibin_line(r.as_str(), "sdiv", ty, a, b);
        self.emit(line.as_str());
        r
    }

    pub fn and(&mut self, regs: &mut RegCounter, ty: LlvmType, a: &str, b: &str) -> (r: String)
        requires
            old(regs)@ < u32::MAX,
        ensures
            reg_step(old(regs)@, final(regs)@, r@),
            final(self)@ == old(self)@.emit(ibin_text(r@, "and"@, ty@, a@, b@)),
    {
        let r = regs.next_name();
        let line = ibin_line(r.as_str(), "and", ty, a, b);
        self.emit(line.as_str());
        r
    }

    pub fn or(&mut self, regs: &mut RegCounter, ty: LlvmType, a: &str, b: &str) -> (r: String)
        requires
            old(regs)@ < u32::MAX,
        ensures
            reg_step(old(regs)@, final(regs)@, r@),
            final(self)@ == old(self)@.emit(ibin_text(r@, "or"@, ty@, a@, b@)),
    {
        let r = regs.next_name();
        let line = ibin_line(r.as_str(), "or", ty, a, b);
        self.emit(line.as_str());
        r
    }

    pub fn xor(&mut self, regs: &mut RegCounter, ty: LlvmType, a: &str, b: &str) -> (r: String)
        requires
            old(regs)@ < u32::MAX,
        ensures
            reg_step(old(regs)@, final(regs)@, r@),
            final(self)@ == old(self)@.emit(ibin_text(r@, "xor"@, ty@, a@, b@)),
    {
        let r = regs.next_name();
        let line = ibin_line(r.as_str(), "xor", ty, a, b);
        self.emit(line.as_str());
        r
    }

    pub fn shl(&mut self, regs: &mut RegCounter, ty: LlvmType, a: &str, b: &str) -> (r: String)
        requires
            old(regs)@ < u32::MAX,
        ensures
            reg_step(old(regs)@, final(regs)@, r@),
            final(self)@ == old(self)@.emit(ibin_text(r@, "shl"@, ty@, a@, b@)),
    {
        let r = regs.next_name();
        let line = ibin_line(r.as_str(), "shl", ty, a, b);
        self.emit(line.as_str());
        r
    }

    pub fn ashr(&mut self, regs: &mut RegCounter, ty: LlvmType, a: &str, b: &str) -> (r: String)
        requires
            old(regs)@ < u32::MAX,
        ensures
            reg_step(old(regs)@, final(regs)@, r@),
            final(self)@ == old(self)@.emit(ibin_text(r@, "ashr"@, ty@, a@, b@)),
    {
        let r = regs.next_name();
        let line = ibin_line(r.as_str(), "ashr", ty, a, b);
        self.emit(line.as_str());
        r
    }

    pub fn lshr(&mut self, regs: &mut RegCounter, ty: LlvmType, a: &str, b: &str) -> (r: String)
        requires
            old(regs)@ < u32::MAX,
        ensures
            reg_step(old(regs)@, final(regs)@, r@),
            final(self)@ == old(self)@.emit(ibin_text(r@, "lshr"@, ty@, a@, b@)),
    {
        let r = regs.next_name();
        let line = ibin_line(r.as_str(), "lshr", ty, a, b);
        self.emit(line.as_str());
        r
    }

    pub fn select(&mut self, regs: &mut RegCounter, cond_ty: LlvmType, cond: &str, ty: LlvmType, true_val: &str, false_val: &str) -> (r: String)
        requires
            old(regs)@ < u32::MAX,
        ensures
            reg_step(old(regs)@, final(regs)@, r@),
            final(self)@ == old(self)@.emit(select_text(r@, cond_ty@, cond@, ty@, true_val@, false_val@)),
    {
        let r = regs.next_name();
        let line = select_line(r.as_str(), cond_ty, cond, ty, true_val, false_val);
        self.emit(line.as_str());
        r
    }

    pub fn br(&mut self, target: &str)
        ensures
            final(self)@ == old(self)@.emit(br_text(target@)).terminate(),
    {
        let line = br_line(target);
        self.emit(line.as_str());
        self.terminated = true;
    }

    pub fn cond_br(&mut self, cond: &str, true_label: &str, false_label: &str)
        ensures
            final(self)@ == old(self)@.emit(cond_br_text(cond@, true_label@, false_label@)).terminate(),
    {
        let line = cond_br_line(cond, true_label, false_label);
        self.emit(line.as_str());
        self.terminated = true;
    }

    pub fn ret(&mut self, ty: LlvmType, val: &str)
        ensures
            final(self)@ == old(self)@.emit(ret_text(ty@, val@)).terminate(),
    {
        let line = ret_line(ty, val);
        self.emit(line.as_str());
        self.terminated = true;
    }

    pub fn ret_void(&mut self)
        ensures
            final(self)@ == old(self)@.emit("ret void"@).terminate(),
    {
        self.emit("ret void");
        self.terminated = true;
    }

    pub fn unreachable(&mut self)
        ensures
            final(self)@ == old(self)@.emit("unreachable"@).terminate(),
    {
        self.emit("unreachable");
        self.terminated = true;
    }

    pub fn call(&mut self, regs: &mut RegCounter, ret_ty: LlvmType, func_name: &str, args: &[(LlvmType, &str)]) -> (r: String)
        requires
            old(regs)@ < u32::MAX,
        ensures
            reg_step(old(regs)@, final(regs)@, r@),
            final(self)@ == old(self)@.emit(call_text(r@, ret_ty@, func_name@, typed_list(args@))),
    {
        let r = regs.next_name();
        let arg_str = format_args(args);
        let line = call_line(r.as_str(), ret_ty, func_name, arg_str.as_str());
        self.emit(line.as_str());
        r
    }

    pub fn call_void(&mut self, func_name: &str, args: &[(LlvmType, &str)])
        ensures
            final(self)@ == old(self)@.emit(call_void_text(func_name@, typed_list(args@))),
    {
        let arg_str = format_args(args);
        let line = call_void_line(func_name, arg_str.as_str());
        self.emit(line.as_str());
    }

    pub fn call_indirect(&mut self, regs: &mut RegCounter, ret_ty: LlvmType, fn_ptr: &str, args: &[(LlvmType, &str)]) -> (r: String)
        requires
            old(regs)@ < u32::MAX,
        ensures
            reg_step(old(regs)@, final(regs)@, r@),
            final(self)@ == old(self)@.emit(
                call_indirect_text(r@, ret_ty@, type_list(args@), fn_ptr@, typed_list(args@)),
            ),
    {
        let r = regs.next_name();
        let arg_str = format_args(args);
        let param_types = format_types(args);
        let line = call_indirect_line(r.as_str(), ret_ty, param_types.as_str(), fn_ptr, arg_str.as_str());
        self.emit(line.as_str());
        r
    }

    pub fn gep(&mut self, regs: &mut RegCounter, base_ty: LlvmType, ptr: &str, indices: &[(LlvmType, &str)]) -> (r: String)
        requires
            old(regs)@ < u32::MAX,
        ensures
            reg_step(old(regs)@, final(regs)@, r@),
            final(self)@ == old(self)@.emit(gep_text(r@, "getelementptr"@, base_ty@, ptr@, typed_list(indices@))),
    {
        let r = regs.next_name();
        let idx_str = format_args(indices);
        let line = gep_line(r.as_str(), "getelementptr", base_ty, ptr, idx_str.as_str());
        self.emit(line.as_str());
        r
    }

    /// `getelementptr inbounds` — asserts the result stays within the
    /// allocation, which lets LLVM reason about pointer provenance.
    pub fn gep_inbounds(&mut self, regs: &mut RegCounter, base_ty: LlvmType, ptr: &str, indices: &[(LlvmType, &str)]) -> (r: String)
        requires
            old(regs)@ < u32::MAX,
        ensures
            reg_step(old(regs)@, final(regs)@, r@),
            final(self)@ == old(self)@.emit(gep_text(r@, "getelementptr inbounds"@, base_ty@, ptr@, typed_list(indices@))),
    {
        let r = regs.next_name();
        let idx_str = format_args(indices);
        let line = gep_line(r.as_str(), "getelementptr inbounds", base_ty, ptr, idx_str.as_str());
        self.emit(line.as_str());
        r
    }

    pub fn phi(&mut self, regs: &mut RegCounter, ty: LlvmType, incoming: &[(&str, &str)]) -> (r: String)
        requires
            old(regs)@ < u32::MAX,
        ensures
            reg_step(old(regs)@, final(regs)@, r@),
            final(self)@ == old(self)@.emit(phi_text(r@, ty@, phi_list(incoming@))),
    {
        let r = regs.next_name();
        let pairs = format_incoming(incoming);
        let line = phi_line(r.as_str(), ty, pairs.as_str());
        self.emit(line.as_str());
        r
    }

    /// ECMAScript ToInt32: `fptosi` with a NaN/Infinity guard. NaN and
    /// ±Infinity produce 0; other values go through
    /// `fptosi(f64→i64) + trunc(i64→i32)`.
    pub fn toint32(&mut self, regs: &mut RegCounter, val: &str) -> (r: String)
        requires
            old(regs)@ + 7 <= u32::MAX,
        ensures
            final(regs)@ == old(regs)@ + 7,
            r@ == reg_name(final(regs)@),
            final(self)@ == toint32_view(old(self)@, old(regs)@, val@),
    {
        let is_nan = self.fcmp(regs, "uno", val, "0.0");
        let fabs = self.call(regs, DOUBLE, "llvm.fabs.f64", &[(DOUBLE, val)]);
        proof {
            let ghost args = seq![(DOUBLE, val)];
            assert(typed_items(args) =~= seq![DOUBLE@ + " "@ + val@]);
        }
        let is_inf = self.fcmp(regs, "oeq", fabs.as_str(), "0x7FF0000000000000");
        let is_bad = self.or(regs, I1, is_nan.as_str(), is_inf.as_str());
        let safe = self.select(regs, I1, is_bad.as_str(), DOUBLE, "0.0", val);
        let as_i64 = self.fptosi(regs, DOUBLE, safe.as_str(), I64);
        self.trunc(regs, I64, as_i64.as_str(), I32)
    }

    /// Fast ToInt32 — no NaN/Infinity guard; only for inputs known to be
    /// finite.
    pub fn toint32_fast(&mut self, regs: &mut RegCounter, val: &str) -> (r: String)
        requires
            old(regs)@ + 2 <= u32::MAX,
        ensures
            final(regs)@ == old(regs)@ + 2,
            r@ == reg_name(final(regs)@),
            final(self)@ == toint32_fast_view(old(self)@, old(regs)@, val@),
    {
        let as_i64 = self.fptosi(regs, DOUBLE, val, I64);
        self.trunc(regs, I64, as_i64.as_str(), I32)
    }

    /// Load i32 from a NaN-unboxed pointer, with a null guard: a pointer
    /// below 4096 reads `@perry_null_guard_zero` (a global holding 0)
    /// instead of being dereferenced. The load is tagged
    /// `!invariant.load`.
    pub fn safe_load_i32_from_ptr(&mut self, regs: &mut RegCounter, handle: &str) -> (r: String)
        requires
            old(regs)@ + 4 <= u32::MAX,
        ensures
            final(regs)@ == old(regs)@ + 4,
            r@ == reg_name(final(regs)@),
            final(self)@ == safe_load_view(old(self)@, old(regs)@, handle@),
    {
        let is_bad = self.icmp_ult(regs, I64, handle, "4096");
        let handle_ptr = self.inttoptr(regs, I64, handle);
        let safe_ptr = regs.next_name();
        let line = guard_select_line(safe_ptr.as_str(), is_bad.as_str(), handle_ptr.as_str());
        self.emit(line.as_str());
        self.load_invariant(regs, I32, safe_ptr.as_str())
    }

    pub fn to_ir(&self) -> (s: String)
        ensures
            s@ == self@.ir(),
    {
        let mut out = String::new();
        out.append(self.label.as_str());
        out.append(":\n");
        let body = join_strings(&self.instructions, "\n");
        out.append(body.as_str());
        assert(out@ =~= self@.ir());
        out
    }
}

} // verus!
