//! LLVM IR function builder.
//!
//! A function owns the `RegCounter` shared by all its blocks, an ordered
//! list of blocks, and emits itself as an LLVM `define` when serialized.

use vstd::prelude::*;

use crate::block::{
    BlockView, LlBlock, RegCounter, reg_name, reg_step, alloca_text, store_text, call_text, load_text,
    indent, alloca_line, store_line, call_line, load_line,
};
use crate::text::{dec, is_digit, lemma_dec_digits, lemma_dec_injective, join, lines_text, push_dec, push_lines, push_lines_range, strings_view};
use crate::shadow::{lines_of, pop_shadow_frames, rewrite_lines};
use crate::types::{LlvmType, I64, PTR};

verus! {

/// Abstract state of a function.
pub struct FunctionView {
    pub name: Seq<char>,
    pub return_type: Seq<char>,
    pub params: Seq<(Seq<char>, Seq<char>)>,
    pub linkage: Seq<char>,
    pub has_try: bool,
    pub force_inline: bool,
    pub blocks: Seq<BlockView>,
    /// Number of blocks created so far (the next label suffix).
    pub block_counter: nat,
    /// Registers handed out so far.
    pub regs: nat,
    /// Lines hoisted to the very top of the entry block.
    pub entry_allocas: Seq<Seq<char>>,
    /// Lines spliced into the entry block at the init boundary.
    pub post_init: Seq<Seq<char>>,
    pub boundary: Option<nat>,
    pub shadow_slot: Option<Seq<char>>,
}

pub open spec fn params_view(params: Seq<(LlvmType, String)>) -> Seq<(Seq<char>, Seq<char>)> {
    params.map_values(|p: (LlvmType, String)| (p.0@, p.1@))
}

pub open spec fn blocks_view(blocks: Seq<LlBlock>) -> Seq<BlockView> {
    blocks.map_values(|b: LlBlock| b@)
}

/// Label of the block created when the counter stood at `k`:
/// `<name>.<k>`.
pub open spec fn block_label(name: Seq<char>, k: nat) -> Seq<char> {
    name + "."@ + dec(k)
}

/// Replacing one block replaces its view.
proof fn lemma_blocks_view_update(s: Seq<LlBlock>, i: int)
    requires
        0 <= i < s.len(),
    ensures
        forall|x: LlBlock| #[trigger] blocks_view(s.update(i, x)) == blocks_view(s).update(i, x@),
{
    assert forall|x: LlBlock| #[trigger] blocks_view(s.update(i, x)) == blocks_view(s).update(i, x@) by {
        assert(blocks_view(s.update(i, x)) =~= blocks_view(s).update(i, x@));
    }
}

/// `t n` for each parameter.
pub open spec fn param_items(params: Seq<(Seq<char>, Seq<char>)>) -> Seq<Seq<char>> {
    params.map_values(|p: (Seq<char>, Seq<char>)| p.0 + " "@ + p.1)
}

/// The linkage followed by a space, or nothing for default linkage.
pub open spec fn linkage_text(l: Seq<char>) -> Seq<char> {
    if l.len() == 0 {
        Seq::empty()
    } else {
        l + " "@
    }
}

/// ` #1` for a function with `try`, else ` alwaysinline` when forced
/// inline, else nothing.
pub open spec fn attrs_text(has_try: bool, force_inline: bool) -> Seq<char> {
    if has_try {
        " #1"@
    } else if force_inline {
        " alwaysinline"@
    } else {
        Seq::empty()
    }
}

impl FunctionView {
    /// `define <linkage><ret> @<name>(<params>)<attrs> {` and a newline.
    pub open spec fn header(self) -> Seq<char> {
        "define "@ + linkage_text(self.linkage) + self.return_type + " @"@ + self.name + "("@ + join(
            param_items(self.params),
            ", "@,
        ) + ")"@ + attrs_text(self.has_try, self.force_inline) + " {\n"@
    }

    /// Whether anything is hoisted into the entry block.
    pub open spec fn hoisted(self) -> bool {
        self.entry_allocas.len() > 0 || self.post_init.len() > 0
    }

    /// Where the post-init setup goes in block 0: the marked boundary (0 if
    /// none), capped at the block's length.
    pub open spec fn splice_point(self) -> nat {
        let b = match self.boundary {
            Some(b) => b,
            None => 0,
        };
        let n = self.blocks[0].instrs.len();
        if b < n {
            b
        } else {
            n
        }
    }

    /// Block 0 with the hoisted lines: label, entry allocas, the block's
    /// instructions up to the splice point, the post-init setup, then the
    /// rest of the block; one line each.
    pub open spec fn entry_text(self) -> Seq<char> {
        let b = self.blocks[0];
        let k = self.splice_point() as int;
        b.label + ":\n"@ + lines_text(self.entry_allocas) + lines_text(b.instrs.take(k)) + lines_text(
            self.post_init,
        ) + lines_text(b.instrs.skip(k))
    }

    pub open spec fn block_text(self, i: int) -> Seq<char> {
        if i == 0 && self.hoisted() {
            self.entry_text()
        } else {
            self.blocks[i].ir() + "\n"@
        }
    }

    /// The first `n` blocks' texts, separated by blank lines.
    pub open spec fn body_text(self, n: nat) -> Seq<char>
        decreases n,
    {
        if n == 0 {
            Seq::empty()
        } else {
            self.body_text((n - 1) as nat) + (if n > 1 {
                "\n"@
            } else {
                Seq::empty()
            }) + self.block_text(n - 1)
        }
    }

    /// The definition before the shadow-frame rewrite.
    pub open spec fn plain_ir(self) -> Seq<char> {
        self.header() + self.body_text(self.blocks.len()) + "}\n"@
    }

    /// The function's IR text: the definition, with every `ret` line
    /// preceded by the frame pop when a shadow frame is enabled.
    pub open spec fn ir(self) -> Seq<char> {
        match self.shadow_slot {
            Some(slot) => rewrite_lines(lines_of(self.plain_ir()), slot),
            None => self.plain_ir(),
        }
    }
}

impl FunctionView {
    /// The lines `entry_init_load_global(g, ty)` adds when the registers
    /// handed out so far number `r`: the slot's `alloca`, and the load of
    /// the global and the store into the slot.
    pub open spec fn global_alloca(r: nat, ty: Seq<char>) -> Seq<char> {
        "  "@ + alloca_text(reg_name(r + 1), ty)
    }

    pub open spec fn global_load(r: nat, g: Seq<char>, ty: Seq<char>) -> Seq<char> {
        "  "@ + load_text(reg_name(r + 2), "load"@, ty, "@"@ + g)
    }

    pub open spec fn global_store(r: nat, ty: Seq<char>) -> Seq<char> {
        "  "@ + store_text("store"@, ty, reg_name(r + 2), reg_name(r + 1))
    }

    /// One `entry_init_load_global(g, ty)` call: the `alloca` goes to the
    /// entry prelude; the load and store go to the post-init setup when a
    /// boundary is marked, else to the prelude after the `alloca`.
    pub open spec fn load_global_step(self, g: Seq<char>, ty: Seq<char>) -> FunctionView {
        let r = self.regs;
        if self.boundary is Some {
            FunctionView {
                regs: r + 2,
                entry_allocas: self.entry_allocas.push(Self::global_alloca(r, ty)),
                post_init: self.post_init.push(Self::global_load(r, g, ty)).push(Self::global_store(r, ty)),
                ..self
            }
        } else {
            FunctionView {
                regs: r + 2,
                entry_allocas: self.entry_allocas.push(Self::global_alloca(r, ty)).push(
                    Self::global_load(r, g, ty),
                ).push(Self::global_store(r, ty)),
                ..self
            }
        }
    }

    /// A run of `entry_init_load_global` calls, `(global, type)` each.
    pub open spec fn load_globals(self, gs: Seq<(Seq<char>, Seq<char>)>) -> FunctionView
        decreases gs.len(),
    {
        if gs.len() == 0 {
            self
        } else {
            self.load_globals(gs.drop_last()).load_global_step(gs.last().0, gs.last().1)
        }
    }

    /// `create_block(name)` on this function, before the caller touches
    /// the block it returns.
    pub open spec fn with_new_block(self, name: Seq<char>) -> FunctionView {
        FunctionView {
            blocks: self.blocks.push(
                BlockView { label: block_label(name, self.block_counter), instrs: Seq::empty(), terminated: false },
            ),
            block_counter: self.block_counter + 1,
            ..self
        }
    }

    /// A run of `create_block` calls with the given names.
    pub open spec fn create_blocks(self, names: Seq<Seq<char>>) -> FunctionView
        decreases names.len(),
    {
        if names.len() == 0 {
            self
        } else {
            self.create_blocks(names.drop_last()).with_new_block(names.last())
        }
    }

    /// The block list is numbered by creation: the counter equals the
    /// number of blocks, and block `i`'s label is some name followed by
    /// `.i`.
    pub open spec fn blocks_indexed(self) -> bool {
        &&& self.block_counter == self.blocks.len()
        &&& forall|i: int| 0 <= i < self.blocks.len() ==> #[trigger] labelled_at(self.blocks[i].label, i as nat)
    }
}

/// `l` is some name followed by `.i`.
pub open spec fn labelled_at(l: Seq<char>, i: nat) -> bool {
    exists|n: Seq<char>| #[trigger] block_label(n, i) == l
}

/// The post-init lines of a run of `entry_init_load_global` calls made
/// after the boundary was marked, starting with `r` registers handed out:
/// for each call in order, the load of its global and the store into its
/// slot.
pub open spec fn post_init_lines(r: nat, gs: Seq<(Seq<char>, Seq<char>)>) -> Seq<Seq<char>>
    decreases gs.len(),
{
    if gs.len() == 0 {
        Seq::empty()
    } else {
        let k = r + 2 * (gs.len() - 1) as nat;
        post_init_lines(r, gs.drop_last()).push(FunctionView::global_load(k, gs.last().0, gs.last().1)).push(
            FunctionView::global_store(k, gs.last().1),
        )
    }
}

/// The prelude `alloca`s of such a run, one per call.
pub open spec fn global_allocas(r: nat, gs: Seq<(Seq<char>, Seq<char>)>) -> Seq<Seq<char>>
    decreases gs.len(),
{
    if gs.len() == 0 {
        Seq::empty()
    } else {
        let k = r + 2 * (gs.len() - 1) as nat;
        global_allocas(r, gs.drop_last()).push(FunctionView::global_alloca(k, gs.last().1))
    }
}

/// After the init boundary is marked, every `entry_init_load_global` call
/// puts its `alloca` at the end of the prelude and its load and store, in
/// call order, at the end of the post-init setup; the boundary and the
/// blocks stay as they were. Slot and result of call `i` are registers
/// `r + 2i + 1` and `r + 2i + 2`.
pub proof fn lemma_load_globals_after_boundary(f: FunctionView, gs: Seq<(Seq<char>, Seq<char>)>)
    requires
        f.boundary is Some,
    ensures
        f.load_globals(gs) == (FunctionView {
            regs: f.regs + 2 * gs.len(),
            entry_allocas: f.entry_allocas + global_allocas(f.regs, gs),
            post_init: f.post_init + post_init_lines(f.regs, gs),
            ..f
        }),
    decreases gs.len(),
{
    if gs.len() == 0 {
        assert(f.entry_allocas + global_allocas(f.regs, gs) =~= f.entry_allocas);
        assert(f.post_init + post_init_lines(f.regs, gs) =~= f.post_init);
    } else {
        let prev = gs.drop_last();
        lemma_load_globals_after_boundary(f, prev);
        let g = f.load_globals(prev);
        assert(g.regs == f.regs + 2 * (gs.len() - 1) as nat);
        assert(g.load_global_step(gs.last().0, gs.last().1).entry_allocas =~= f.entry_allocas + global_allocas(
            f.regs,
            gs,
        ));
        assert(g.load_global_step(gs.last().0, gs.last().1).post_init =~= f.post_init + post_init_lines(
            f.regs,
            gs,
        ));
    }
}

/// Where the post-init setup lands: with the boundary marked at `k`
/// instructions into block 0 (and block 0 at least that long, which later
/// emits into it keep), the entry block renders as its label, the entry
/// prelude, block 0's first `k` instructions, the post-init setup, then
/// the rest of block 0.
pub proof fn lemma_post_init_splice(f: FunctionView, k: nat)
    requires
        f.blocks.len() > 0,
        f.boundary == Some(k),
        k <= f.blocks[0].instrs.len(),
    ensures
        f.splice_point() == k,
        f.entry_text() == f.blocks[0].label + ":\n"@ + lines_text(f.entry_allocas) + lines_text(
            f.blocks[0].instrs.take(k as int),
        ) + lines_text(f.post_init) + lines_text(f.blocks[0].instrs.skip(k as int)),
{
}

/// A new function (no blocks, counter at 0) is numbered by creation.
pub proof fn lemma_new_function_indexed(f: FunctionView)
    requires
        f.blocks.len() == 0,
        f.block_counter == 0,
    ensures
        f.blocks_indexed(),
{
}

/// `create_block` keeps the numbering: the new block, labelled
/// `<name>.<n>` where `n` is the number of blocks before the call, is
/// appended, and the count grows by one. The caller may then emit into
/// the block; as long as it leaves the label alone the numbering holds.
pub proof fn lemma_create_block_indexed(f: FunctionView, name: Seq<char>, b: BlockView)
    requires
        f.blocks_indexed(),
        b.label == block_label(name, f.block_counter),
    ensures
        (FunctionView { blocks: f.blocks.push(b), block_counter: f.block_counter + 1, ..f }).blocks_indexed(),
        b.label == block_label(name, f.blocks.len()),
{
    let g = FunctionView { blocks: f.blocks.push(b), block_counter: f.block_counter + 1, ..f };
    assert forall|i: int| 0 <= i < g.blocks.len() implies #[trigger] labelled_at(g.blocks[i].label, i as nat) by {
        if i < f.blocks.len() {
            assert(labelled_at(f.blocks[i].label, i as nat));
        } else {
            assert(block_label(name, i as nat) == g.blocks[i].label);
        }
    }
}

/// Emitting into an existing block (through `block_mut` or
/// `block_with_regs`) keeps the numbering when the label is left alone.
pub proof fn lemma_block_update_indexed(f: FunctionView, i: int, b: BlockView)
    requires
        f.blocks_indexed(),
        0 <= i < f.blocks.len(),
        b.label == f.blocks[i].label,
    ensures
        (FunctionView { blocks: f.blocks.update(i, b), ..f }).blocks_indexed(),
{
    let g = FunctionView { blocks: f.blocks.update(i, b), ..f };
    assert forall|j: int| 0 <= j < g.blocks.len() implies #[trigger] labelled_at(g.blocks[j].label, j as nat) by {
        assert(labelled_at(f.blocks[j].label, j as nat));
    }
}

/// In a function numbered by creation, no two blocks share a label.
pub proof fn lemma_indexed_labels_distinct(f: FunctionView)
    requires
        f.blocks_indexed(),
    ensures
        forall|i: int, j: int|
            0 <= i < f.blocks.len() && 0 <= j < f.blocks.len() && i != j ==> #[trigger] f.blocks[i].label
                != #[trigger] f.blocks[j].label,
{
    assert forall|i: int, j: int|
        0 <= i < f.blocks.len() && 0 <= j < f.blocks.len() && i != j implies #[trigger] f.blocks[i].label
            != #[trigger] f.blocks[j].label by {
        assert(labelled_at(f.blocks[i].label, i as nat));
        assert(labelled_at(f.blocks[j].label, j as nat));
        let ni = choose|n: Seq<char>| #[trigger] block_label(n, i as nat) == f.blocks[i].label;
        let nj = choose|n: Seq<char>| #[trigger] block_label(n, j as nat) == f.blocks[j].label;
        lemma_block_labels_distinct(ni, i as nat, nj, j as nat);
    }
}

/// A run of `create_block` calls on a function numbered by creation: the
/// function ends with one more block per call, the earlier blocks
/// unchanged, call `i` creating the empty, open block labelled
/// `<names[i]>.<n + i>` (`n` the blocks before the run), and the
/// numbering holds.
pub proof fn lemma_create_blocks(f: FunctionView, names: Seq<Seq<char>>)
    requires
        f.blocks_indexed(),
    ensures
        f.create_blocks(names).blocks_indexed(),
        f.create_blocks(names).blocks.len() == f.blocks.len() + names.len(),
        f.create_blocks(names).blocks.take(f.blocks.len() as int) == f.blocks,
        forall|i: int|
            0 <= i < names.len() ==> #[trigger] f.create_blocks(names).blocks[f.blocks.len() + i] == (BlockView {
                label: block_label(names[i], (f.blocks.len() + i) as nat),
                instrs: Seq::empty(),
                terminated: false,
            }),
        f.create_blocks(names).regs == f.regs,
        f.create_blocks(names).entry_allocas == f.entry_allocas,
        f.create_blocks(names).post_init == f.post_init,
    decreases names.len(),
{
    if names.len() > 0 {
        let prev = names.drop_last();
        lemma_create_blocks(f, prev);
        let g = f.create_blocks(prev);
        lemma_create_block_indexed(g, names.last(), g.with_new_block(names.last()).blocks.last());
        let h = g.with_new_block(names.last());
        assert(h.blocks.take(f.blocks.len() as int) =~= g.blocks.take(f.blocks.len() as int));
        assert forall|i: int| 0 <= i < names.len() implies #[trigger] h.blocks[f.blocks.len() + i] == (BlockView {
            label: block_label(names[i], (f.blocks.len() + i) as nat),
            instrs: Seq::empty(),
            terminated: false,
        }) by {
            if i < prev.len() {
                assert(g.blocks[f.blocks.len() + i] == h.blocks[f.blocks.len() + i]);
                assert(prev[i] == names[i]);
            }
        }
    }
}

/// Block labels are unique across a function: blocks created at different
/// counter values get different labels, whatever names they were given
/// (the numeric suffix after the last `.` tells them apart).
pub proof fn lemma_block_labels_distinct(n1: Seq<char>, k1: nat, n2: Seq<char>, k2: nat)
    requires
        k1 != k2,
    ensures
        block_label(n1, k1) != block_label(n2, k2),
{
    let l1 = block_label(n1, k1);
    let l2 = block_label(n2, k2);
    if l1 == l2 {
        reveal_strlit(".");
        lemma_dec_digits(k1);
        lemma_dec_digits(k2);
        let d1 = dec(k1);
        let d2 = dec(k2);
        let len = l1.len();
        if d1.len() == d2.len() {
            assert(l1.skip(len - d1.len()) =~= d1);
            assert(l2.skip(len - d2.len()) =~= d2);
            lemma_dec_injective(k1, k2);
        } else if d1.len() < d2.len() {
            assert(l1[len - d1.len() - 1] == '.');
            assert(l2[len - d1.len() - 1] == d2[d2.len() - d1.len() - 1]);
            assert(is_digit(d2[d2.len() - d1.len() - 1]));
        } else {
            assert(l2[len - d2.len() - 1] == '.');
            assert(l1[len - d2.len() - 1] == d1[d1.len() - d2.len() - 1]);
            assert(is_digit(d1[d1.len() - d2.len() - 1]));
        }
    }
}

pub struct LlFunction {
    pub name: String,
    pub return_type: LlvmType,
    pub params: Vec<(LlvmType, String)>,
    /// Optional LLVM linkage string, e.g. `"internal"` or `"private"`. Empty
    /// string means external (default) linkage.
    pub linkage: String,
    /// When true, the function body contains a `try` statement; the
    /// definition gets `#1` (noinline optnone).
    pub has_try: bool,
    /// When true, emit the `alwaysinline` attribute.
    pub force_inline: bool,
    blocks: Vec<LlBlock>,
    block_counter: u32,
    reg_counter: RegCounter,
    /// Allocas (and a few simple init sequences) hoisted to the top of the
    /// entry block, so they dominate every use in the function.
    entry_allocas: Vec<String>,
    /// Hoisted setup that must run after the entry block's init prelude
    /// but before user code; spliced into block 0 at
    /// `entry_init_boundary`.
    entry_post_init_setup: Vec<String>,
    /// Index in block 0's instruction list where `entry_post_init_setup`
    /// is spliced in.
    entry_init_boundary: Option<usize>,
    /// When set, `to_ir` prefixes every `ret` with a load of the frame
    /// handle stored in this slot and a call to `js_shadow_frame_pop`.
    shadow_frame_slot: Option<String>,
}

impl View for LlFunction {
    type V = FunctionView;

    closed spec fn view(&self) -> FunctionView {
        FunctionView {
            name: self.name@,
            return_type: self.return_type@,
            params: params_view(self.params@),
            linkage: self.linkage@,
            has_try: self.has_try,
            force_inline: self.force_inline,
            blocks: blocks_view(self.blocks@),
            block_counter: self.block_counter as nat,
            regs: self.reg_counter@,
            entry_allocas: strings_view(self.entry_allocas@),
            post_init: strings_view(self.entry_post_init_setup@),
            boundary: match self.entry_init_boundary {
                Some(b) => Some(b as nat),
                None => None,
            },
            shadow_slot: match self.shadow_frame_slot {
                Some(s) => Some(s@),
                None => None,
            },
        }
    }
}

impl LlFunction {
    pub fn new(name: &str, return_type: LlvmType, params: Vec<(LlvmType, String)>) -> (f: Self)
        ensures
            f@ == (FunctionView {
                name: name@,
                return_type: return_type@,
                params: params_view(params@),
                linkage: Seq::empty(),
                has_try: false,
                force_inline: false,
                blocks: Seq::empty(),
                block_counter: 0,
                regs: 0,
                entry_allocas: Seq::empty(),
                post_init: Seq::empty(),
                boundary: None,
                shadow_slot: None,
            }),
    {
        let f = LlFunction {
            name: name.to_owned(),
            return_type,
            params,
            linkage: String::new(),
            has_try: false,
            force_inline: false,
            blocks: Vec::new(),
            block_counter: 0,
            reg_counter: RegCounter::new(),
            entry_allocas: Vec::new(),
            entry_post_init_setup: Vec::new(),
            entry_init_boundary: None,
            shadow_frame_slot: None,
        };
        assert(f@.blocks =~= Seq::<BlockView>::empty());
        assert(f@.entry_allocas =~= Seq::<Seq<char>>::empty());
        assert(f@.post_init =~= Seq::<Seq<char>>::empty());
        f
    }

    /// Create a new basic block with the given semantic name (e.g.
    /// "entry", "if.then"). A numeric suffix is appended to make the label
    /// unique across the function.
    pub fn create_block(&mut self, name: &str) -> (b: &mut LlBlock)
        requires
            old(self)@.block_counter < u32::MAX,
        ensures
            (*b)@ == (BlockView {
                label: block_label(name@, old(self)@.block_counter),
                instrs: Seq::empty(),
                terminated: false,
            }),
            final(self)@ == (FunctionView {
                blocks: old(self)@.blocks.push(final(b)@),
                block_counter: old(self)@.block_counter + 1,
                ..old(self)@
            }),
            final(b)@ == (*b)@ ==> final(self)@ == old(self)@.with_new_block(name@),
    {
        let mut label = String::new();
        label.append(name);
        label.append(".");
        push_dec(&mut label, self.block_counter as u64);
        assert(label@ =~= block_label(name@, self@.block_counter));
        self.block_counter = self.block_counter + 1;
        let block = LlBlock::new(label.as_str());
        let ghost old_blocks = blocks_view(self.blocks@);
        self.blocks.push(block);
        let n = self.blocks.len();
        proof {
            assert(blocks_view(self.blocks@) =~= old_blocks.push(block@));
            lemma_blocks_view_update(self.blocks@, n - 1);
            assert forall|v: BlockView| #[trigger] old_blocks.push(block@).update(n - 1, v) == old_blocks.push(v) by {
                assert(old_blocks.push(block@).update(n - 1, v) =~= old_blocks.push(v));
            }
        }
        &mut self.blocks[n - 1]
    }

    /// A block and the function's register counter, borrowed together so
    /// instructions that define registers can be emitted into the block.
    pub fn block_with_regs(&mut self, idx: usize) -> (r: (&mut LlBlock, &mut RegCounter))
        requires
            idx < old(self)@.blocks.len(),
        ensures
            (*r.0)@ == old(self)@.blocks[idx as int],
            (*r.1)@ == old(self)@.regs,
            final(self)@ == (FunctionView {
                blocks: old(self)@.blocks.update(idx as int, final(r.0)@),
                regs: final(r.1)@,
                ..old(self)@
            }),
    {
        proof {
            lemma_blocks_view_update(self.blocks@, idx as int);
        }
        (&mut self.blocks[idx], &mut self.reg_counter)
    }

    /// Accessor for an earlier block by index.
    pub fn block_mut(&mut self, idx: usize) -> (r: Option<&mut LlBlock>)
        ensures
            idx < old(self)@.blocks.len() <==> r is Some,
            r is None ==> final(self)@ == old(self)@,
            r matches Some(b) ==> {
                &&& (*b)@ == old(self)@.blocks[idx as int]
                &&& final(self)@ == (FunctionView {
                    blocks: old(self)@.blocks.update(idx as int, final(b)@),
                    ..old(self)@
                })
            },
    {
        if idx < self.blocks.len() {
            proof {
                lemma_blocks_view_update(self.blocks@, idx as int);
            }
            Some(&mut self.blocks[idx])
        } else {
            None
        }
    }

    /// Appends an already-indented line to the entry-block prelude.
    fn push_entry(&mut self, line: String)
        ensures
            final(self)@ == (FunctionView {
                entry_allocas: old(self)@.entry_allocas.push(line@),
                ..old(self)@
            }),
    {
        self.entry_allocas.push(line);
        assert(strings_view(self.entry_allocas@) =~= old(self)@.entry_allocas.push(line@));
    }

    /// Appends an already-indented line to the post-init setup.
    fn push_post_init(&mut self, line: String)
        ensures
            final(self)@ == (FunctionView {
                post_init: old(self)@.post_init.push(line@),
                ..old(self)@
            }),
    {
        self.entry_post_init_setup.push(line);
        assert(strings_view(self.entry_post_init_setup@) =~= old(self)@.post_init.push(line@));
    }

    /// Allocate a fresh stack slot in the function entry block. Returns
    /// the SSA pointer name (e.g. `%r42`). The `alloca` is emitted at the
    /// top of block 0, ahead of any existing entry-block code, so the slot
    /// dominates every reachable use.
    pub fn alloca_entry(&mut self, ty: LlvmType) -> (r: String)
        requires
            old(self)@.regs < u32::MAX,
        ensures
            reg_step(old(self)@.regs, final(self)@.regs, r@),
            final(self)@ == (FunctionView {
                regs: final(self)@.regs,
                entry_allocas: old(self)@.entry_allocas.push("  "@ + alloca_text(r@, ty@)),
                ..old(self)@
            }),
    {
        let r = self.reg_counter.next_name();
        let line = alloca_line(r.as_str(), ty);
        self.push_entry(indent(line.as_str()));
        r
    }

    /// Allocate a fixed-size `[count x elem_ty]` array slot in the function
    /// entry block. Returns a `ptr` to the array.
    pub fn alloca_entry_array(&mut self, elem_ty: LlvmType, count: usize) -> (r: String)
        requires
            old(self)@.regs < u32::MAX,
        ensures
            reg_step(old(self)@.regs, final(self)@.regs, r@),
            final(self)@ == (FunctionView {
                regs: final(self)@.regs,
                entry_allocas: old(self)@.entry_allocas.push(
                    "  "@ + r@ + " = alloca ["@ + dec(count as nat) + " x "@ + elem_ty@ + "]"@,
                ),
                ..old(self)@
            }),
    {
        let r = self.reg_counter.next_name();
        let mut line = String::new();
        line.append("  ");
        line.append(r.as_str());
        line.append(" = alloca [");
        push_dec(&mut line, count as u64);
        line.append(" x ");
        line.append(elem_ty);
        line.append("]");
        assert(line@ =~= "  "@ + r@ + " = alloca ["@ + dec(count as nat) + " x "@ + elem_ty@ + "]"@);
        self.push_entry(line);
        r
    }

    /// Push a store instruction into the entry-block alloca section.
    pub fn entry_allocas_push_store(&mut self, ty: LlvmType, val: &str, ptr: &str)
        ensures
            final(self)@ == (FunctionView {
                entry_allocas: old(self)@.entry_allocas.push("  "@ + store_text("store"@, ty@, val@, ptr@)),
                ..old(self)@
            }),
    {
        let line = store_line("store", ty, val, ptr);
        self.push_entry(indent(line.as_str()));
    }

    /// Enable shadow-stack frame emission for this function: emits
    /// `js_shadow_frame_push(slot_count)` into the entry prelude, stores
    /// the returned handle into a fresh slot, and records the slot so that
    /// `to_ir` pops the frame before every `ret`. A second call does
    /// nothing.
    pub fn enable_shadow_frame(&mut self, slot_count: u32)
        requires
            old(self)@.shadow_slot is None ==> old(self)@.regs + 2 <= u32::MAX,
        ensures
            old(self)@.shadow_slot is Some ==> final(self)@ == old(self)@,
            old(self)@.shadow_slot is None ==> final(self)@ == (FunctionView {
                regs: old(self)@.regs + 2,
                entry_allocas: old(self)@.entry_allocas
                    .push("  "@ + alloca_text(reg_name(old(self)@.regs + 1), I64@))
                    .push("  "@ + call_text(
                        reg_name(old(self)@.regs + 2),
                        "i64"@,
                        "js_shadow_frame_push"@,
                        "i32 "@ + dec(slot_count as nat),
                    ))
                    .push("  "@ + store_text(
                        "store"@,
                        "i64"@,
                        reg_name(old(self)@.regs + 2),
                        reg_name(old(self)@.regs + 1),
                    )),
                shadow_slot: Some(reg_name(old(self)@.regs + 1)),
                ..old(self)@
            }),
    {
        if self.shadow_frame_slot.is_some() {
            return;
        }
        let handle_slot = self.alloca_entry(I64);
        let handle_reg = self.reg_counter.next_name();
        let mut arg = String::new();
        arg.append("i32 ");
        push_dec(&mut arg, slot_count as u64);
        assert(arg@ =~= "i32 "@ + dec(slot_count as nat));
        let call = call_line(handle_reg.as_str(), "i64", "js_shadow_frame_push", arg.as_str());
        self.push_entry(indent(call.as_str()));
        let store = store_line("store", "i64", handle_reg.as_str(), handle_slot.as_str());
        self.push_entry(indent(store.as_str()));
        self.shadow_frame_slot = Some(handle_slot);
    }

    /// Mark the current end of the entry block as the boundary between the
    /// init prelude and user code; hoisted post-init setup is spliced in at
    /// this point.
    pub fn mark_entry_init_boundary(&mut self)
        ensures
            final(self)@ == (FunctionView {
                boundary: Some(
                    if old(self)@.blocks.len() > 0 {
                        old(self)@.blocks[0].instrs.len()
                    } else {
                        0
                    },
                ),
                ..old(self)@
            }),
    {
        if self.blocks.len() > 0 {
            self.entry_init_boundary = Some(self.blocks[0].instruction_count());
        } else {
            self.entry_init_boundary = Some(0);
        }
    }

    /// Emit a one-time function-entry init sequence: allocate a `ptr` slot,
    /// call `func_name()` (no args), store the result in the slot, and
    /// return the slot pointer name.
    pub fn entry_init_call_ptr(&mut self, func_name: &str) -> (slot: String)
        requires
            old(self)@.regs + 2 <= u32::MAX,
        ensures
            slot@ == reg_name(old(self)@.regs + 1),
            final(self)@ == (FunctionView {
                regs: old(self)@.regs + 2,
                entry_allocas: old(self)@.entry_allocas
                    .push("  "@ + alloca_text(slot@, PTR@))
                    .push("  "@ + call_text(reg_name(old(self)@.regs + 2), "ptr"@, func_name@, ""@))
                    .push("  "@ + store_text("store"@, "ptr"@, reg_name(old(self)@.regs + 2), slot@)),
                ..old(self)@
            }),
    {
        let slot = self.alloca_entry(PTR);
        let result_reg = self.reg_counter.next_name();
        let call = call_line(result_reg.as_str(), "ptr", func_name, "");
        self.push_entry(indent(call.as_str()));
        let store = store_line("store", "ptr", result_reg.as_str(), slot.as_str());
        self.push_entry(indent(store.as_str()));
        slot
    }

    /// Emit a one-time function-entry load of a module global into a stack
    /// slot, returning the slot pointer. The `alloca` goes to the top of the
    /// entry block; the load and store go to the post-init setup when an
    /// init boundary has been marked, else right after the `alloca`.
    pub fn entry_init_load_global(&mut self, global_name: &str, ty: LlvmType) -> (slot: String)
        requires
            old(self)@.regs + 2 <= u32::MAX,
        ensures
            slot@ == reg_name(old(self)@.regs + 1),
            final(self)@ == old(self)@.load_global_step(global_name@, ty@),
    {
        let slot = self.alloca_entry(ty);
        let result_reg = self.reg_counter.next_name();
        let mut global = String::new();
        global.append("@");
        global.append(global_name);
        assert(global@ =~= "@"@ + global_name@);
        let load = load_line(result_reg.as_str(), "load", ty, global.as_str());
        let load = indent(load.as_str());
        let store = store_line("store", ty, result_reg.as_str(), slot.as_str());
        let store = indent(store.as_str());
        if self.entry_init_boundary.is_some() {
            self.push_post_init(load);
            self.push_post_init(store);
        } else {
            self.push_entry(load);
            self.push_entry(store);
        }
        slot
    }

    /// The function's name.
    pub fn name(&self) -> (n: &str)
        ensures
            n@ == self@.name,
    {
        self.name.as_str()
    }

    pub fn return_type(&self) -> (t: LlvmType)
        ensures
            t@ == self@.return_type,
    {
        self.return_type
    }

    /// The parameters, `(type, name)` each.
    pub fn params(&self) -> (p: &[(LlvmType, String)])
        ensures
            params_view(p@) == self@.params,
    {
        self.params.as_slice()
    }

    /// The linkage string; empty for default (external) linkage.
    pub fn linkage(&self) -> (l: &str)
        ensures
            l@ == self@.linkage,
    {
        self.linkage.as_str()
    }

    /// Sets the LLVM linkage (`"internal"`, `"private"`, ...); an empty
    /// string restores default linkage.
    pub fn set_linkage(&mut self, linkage: &str)
        ensures
            final(self)@ == (FunctionView { linkage: linkage@, ..old(self)@ }),
    {
        self.linkage = linkage.to_owned();
    }

    pub fn has_try(&self) -> (b: bool)
        ensures
            b == self@.has_try,
    {
        self.has_try
    }

    /// Marks whether the body contains a `try` statement (the definition
    /// then gets `#1`).
    pub fn set_has_try(&mut self, has_try: bool)
        ensures
            final(self)@ == (FunctionView { has_try, ..old(self)@ }),
    {
        self.has_try = has_try;
    }

    pub fn force_inline(&self) -> (b: bool)
        ensures
            b == self@.force_inline,
    {
        self.force_inline
    }

    /// Requests the `alwaysinline` attribute.
    pub fn set_force_inline(&mut self, force_inline: bool)
        ensures
            final(self)@ == (FunctionView { force_inline, ..old(self)@ }),
    {
        self.force_inline = force_inline;
    }

    pub fn blocks(&self) -> (b: &[LlBlock])
        ensures
            blocks_view(b@) == self@.blocks,
    {
        self.blocks.as_slice()
    }

    pub fn num_blocks(&self) -> (n: usize)
        ensures
            n == self@.blocks.len(),
    {
        self.blocks.len()
    }

    /// Label of the last-created block.
    pub fn last_block_label(&self) -> (l: Option<&str>)
        ensures
            self@.blocks.len() == 0 ==> l is None,
            self@.blocks.len() > 0 ==> (l matches Some(s) && s@ == self@.blocks.last().label),
    {
        let n = self.blocks.len();
        if n == 0 {
            None
        } else {
            Some(self.blocks[n - 1].label())
        }
    }

    /// The parameter list: `t1 n1, t2 n2, ...`.
    fn format_params(&self) -> (s: String)
        ensures
            s@ == join(param_items(self@.params), ", "@),
    {
        let ghost items = param_items(self@.params);
        let mut s = String::new();
        let mut i: usize = 0;
        while i < self.params.len()
            invariant
                i <= self.params.len(),
                items == param_items(self@.params),
                items.len() == self.params.len(),
                s@ == join(items.take(i as int), ", "@),
            decreases self.params.len() - i,
        {
            assert(items.take(i + 1).drop_last() =~= items.take(i as int));
            if i > 0 {
                s.append(", ");
            }
            let p = &self.params[i];
            s.append(p.0);
            s.append(" ");
            s.append(p.1.as_str());
            i = i + 1;
            assert(s@ =~= join(items.take(i as int), ", "@));
        }
        assert(items.take(self.params.len() as int) =~= items);
        s
    }

    fn push_header(&self, ir: &mut String)
        ensures
            final(ir)@ == old(ir)@ + self@.header(),
    {
        ir.append("define ");
        if !self.linkage.as_str().is_empty() {
            ir.append(self.linkage.as_str());
            ir.append(" ");
        }
        ir.append(self.return_type);
        ir.append(" @");
        ir.append(self.name.as_str());
        ir.append("(");
        let ps = self.format_params();
        ir.append(ps.as_str());
        ir.append(")");
        if self.has_try {
            ir.append(" #1");
        } else if self.force_inline {
            ir.append(" alwaysinline");
        }
        ir.append(" {\n");
        assert(ir@ =~= old(ir)@ + self@.header());
    }

    /// Block 0 with the hoisted prelude and the post-init splice.
    fn push_entry_block(&self, ir: &mut String)
        requires
            self@.blocks.len() > 0,
        ensures
            final(ir)@ == old(ir)@ + self@.entry_text(),
    {
        let blk = &self.blocks[0];
        ir.append(blk.label());
        ir.append(":\n");
        push_lines(ir, self.entry_allocas.as_slice());
        let insts = blk.instructions_iter();
        let n = insts.len();
        let b = match self.entry_init_boundary {
            Some(b) => b,
            None => 0,
        };
        let k = if b < n {
            b
        } else {
            n
        };
        push_lines_range(ir, insts, 0, k);
        push_lines(ir, self.entry_post_init_setup.as_slice());
        push_lines_range(ir, insts, k, n);
        proof {
            let v = self@.blocks[0];
            assert(v == blk@);
            assert(strings_view(insts@).subrange(0, k as int) =~= v.instrs.take(k as int));
            assert(strings_view(insts@).subrange(k as int, n as int) =~= v.instrs.skip(k as int));
            assert(ir@ =~= old(ir)@ + self@.entry_text());
        }
    }

    pub fn to_ir(&self) -> (s: String)
        ensures
            s@ == self@.ir(),
    {
        let mut ir = String::new();
        self.push_header(&mut ir);
        let hoisted = self.entry_allocas.len() > 0 || self.entry_post_init_setup.len() > 0;
        let mut i: usize = 0;
        assert(ir@ =~= self@.header() + self@.body_text(0));
        while i < self.blocks.len()
            invariant
                i <= self.blocks.len(),
                hoisted == self@.hoisted(),
                ir@ == self@.header() + self@.body_text(i as nat),
            decreases self.blocks.len() - i,
        {
            if i > 0 {
                ir.append("\n");
            }
            if i == 0 && hoisted {
                self.push_entry_block(&mut ir);
            } else {
                let t = self.blocks[i].to_ir();
                ir.append(t.as_str());
                ir.append("\n");
            }
            i = i + 1;
            proof {
                assert(self@.blocks[i - 1] == self.blocks@[i - 1]@);
                assert(ir@ =~= self@.header() + self@.body_text(i as nat));
            }
        }
        ir.append("}\n");
        assert(ir@ =~= self@.plain_ir());
        match &self.shadow_frame_slot {
            Some(slot) => pop_shadow_frames(ir.as_str(), slot.as_str()),
            None => ir,
        }
    }
}

} // verus!
