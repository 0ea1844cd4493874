//! Shadow-stack pop insertion: a line-by-line rewrite of a function's IR
//! text that puts a load of the frame handle and a call to
//! `js_shadow_frame_pop` in front of every `ret` line.
//!
//! The rewrite works on the finished text, so it catches every `ret`
//! whichever emitter produced it. Lines are split as `str::lines` splits
//! them, and a line counts as a `ret` when, after leading whitespace (as
//! `char::is_whitespace` defines it), it is `ret void` or starts with
//! `ret `, whatever type it returns.

use vstd::prelude::*;

use crate::block::reg_name;
use crate::text::{chars_of, dec, lemma_dec_injective, push_chars, push_dec};

verus! {

/// `char::is_whitespace`: the characters with the Unicode `White_Space`
/// property.
pub open spec fn is_ws(c: char) -> bool {
    ||| ('\u{9}' <= c && c <= '\u{d}')
    ||| c == ' '
    ||| c == '\u{85}'
    ||| c == '\u{a0}'
    ||| c == '\u{1680}'
    ||| ('\u{2000}' <= c && c <= '\u{200a}')
    ||| c == '\u{2028}'
    ||| c == '\u{2029}'
    ||| c == '\u{202f}'
    ||| c == '\u{205f}'
    ||| c == '\u{3000}'
}

/// `str::trim_start`: `s` without its leading whitespace.
pub open spec fn trim_start(s: Seq<char>) -> Seq<char>
    decreases s.len(),
{
    if s.len() > 0 && is_ws(s[0]) {
        trim_start(s.drop_first())
    } else {
        s
    }
}

/// `str::starts_with`.
pub open spec fn starts_with(s: Seq<char>, p: Seq<char>) -> bool {
    p.len() <= s.len() && s.take(p.len() as int) == p
}

/// A line that the rewrite treats as a return: after leading whitespace
/// it is `ret void` or starts with `ret `.
pub open spec fn is_ret_line(line: Seq<char>) -> bool {
    let t = trim_start(line);
    starts_with(t, "ret "@) || t == "ret void"@
}

/// The pieces of `s` between newlines; there is always one more piece
/// than there are newlines.
pub open spec fn segments(s: Seq<char>) -> Seq<Seq<char>>
    decreases s.len(),
{
    if s.len() == 0 {
        seq![Seq::empty()]
    } else {
        let prev = segments(s.drop_last());
        if s.last() == '\n' {
            prev.push(Seq::empty())
        } else {
            prev.update(prev.len() - 1, prev.last().push(s.last()))
        }
    }
}

/// A piece that ended with a newline loses one trailing carriage return
/// (`\r\n` is a line ending too).
pub open spec fn strip_cr(l: Seq<char>) -> Seq<char> {
    if l.len() > 0 && l.last() == '\r' {
        l.drop_last()
    } else {
        l
    }
}

pub open spec fn ended_lines(pieces: Seq<Seq<char>>) -> Seq<Seq<char>> {
    pieces.map_values(|l: Seq<char>| strip_cr(l))
}

/// `str::lines`: the text split at line endings (`\n` or `\r\n`); a final
/// line ending is optional and produces no empty last line.
pub open spec fn lines_of(s: Seq<char>) -> Seq<Seq<char>> {
    let segs = segments(s);
    let done = ended_lines(segs.drop_last());
    if segs.last().len() == 0 {
        done
    } else {
        done.push(segs.last())
    }
}

/// Number of `ret` lines in `lines`.
pub open spec fn ret_count(lines: Seq<Seq<char>>) -> nat
    decreases lines.len(),
{
    if lines.len() == 0 {
        0
    } else {
        ret_count(lines.drop_last()) + if is_ret_line(lines.last()) {
            1nat
        } else {
            0nat
        }
    }
}

/// Name of the register that holds the frame handle reloaded before the
/// `k`th `ret`: `%shadow_pop_l_<k>`.
pub open spec fn pop_reg(k: nat) -> Seq<char> {
    "%shadow_pop_l_"@ + dec(k)
}

/// The two lines inserted before the `k`th `ret`: a load of the handle
/// from `slot`, then the pop call.
pub open spec fn pop_prefix(slot: Seq<char>, k: nat) -> Seq<char> {
    "  "@ + pop_reg(k) + " = load i64, ptr "@ + slot + "\n"@ + "  call void @js_shadow_frame_pop(i64 "@
        + pop_reg(k) + ")\n"@
}

/// One line of output: the line and a newline, preceded by the pop
/// sequence when it is the `k`th `ret`.
pub open spec fn render_line(line: Seq<char>, slot: Seq<char>, k: nat) -> Seq<char> {
    if is_ret_line(line) {
        pop_prefix(slot, k) + line + "\n"@
    } else {
        line + "\n"@
    }
}

/// The rewritten text of `lines`, each followed by a newline, every `ret`
/// preceded by its pop sequence (numbered from 0 in order).
pub open spec fn rewrite_lines(lines: Seq<Seq<char>>, slot: Seq<char>) -> Seq<char>
    decreases lines.len(),
{
    if lines.len() == 0 {
        Seq::empty()
    } else {
        rewrite_lines(lines.drop_last(), slot) + render_line(
            lines.last(),
            slot,
            ret_count(lines.drop_last()),
        )
    }
}

/// The rewrite works line by line: rewriting the first `j` lines gives a
/// prefix of the rewrite of all lines.
pub proof fn lemma_rewrite_prefix(lines: Seq<Seq<char>>, slot: Seq<char>, j: int)
    requires
        0 <= j <= lines.len(),
    ensures
        rewrite_lines(lines.take(j), slot).is_prefix_of(rewrite_lines(lines, slot)),
    decreases lines.len(),
{
    if j == lines.len() {
        assert(lines.take(j) =~= lines);
    } else {
        lemma_rewrite_prefix(lines.drop_last(), slot, j);
        assert(lines.drop_last().take(j) =~= lines.take(j));
    }
}

/// Every `ret` line comes out directly after its own pop sequence (a
/// reload of the frame handle and the `js_shadow_frame_pop` call); every
/// other line comes out unchanged.
pub proof fn lemma_ret_preceded_by_pop(lines: Seq<Seq<char>>, slot: Seq<char>, j: int)
    requires
        0 <= j < lines.len(),
    ensures
        rewrite_lines(lines.take(j + 1), slot).is_prefix_of(rewrite_lines(lines, slot)),
        is_ret_line(lines[j]) ==> rewrite_lines(lines.take(j + 1), slot) == rewrite_lines(lines.take(j), slot)
            + pop_prefix(slot, ret_count(lines.take(j))) + lines[j] + "\n"@,
        !is_ret_line(lines[j]) ==> rewrite_lines(lines.take(j + 1), slot) == rewrite_lines(lines.take(j), slot)
            + lines[j] + "\n"@,
{
    lemma_rewrite_prefix(lines, slot, j + 1);
    assert(lines.take(j + 1).drop_last() =~= lines.take(j));
}

/// Each `ret` gets its own handle register: two different `ret` lines are
/// preceded by pops through differently named registers.
pub proof fn lemma_pop_regs_distinct(lines: Seq<Seq<char>>, i: int, j: int)
    requires
        0 <= i < j < lines.len(),
        is_ret_line(lines[i]),
    ensures
        pop_reg(ret_count(lines.take(i))) != pop_reg(ret_count(lines.take(j))),
{
    lemma_ret_count_grows(lines, i, j);
    if pop_reg(ret_count(lines.take(i))) == pop_reg(ret_count(lines.take(j))) {
        reveal_strlit("%shadow_pop_l_");
        let a = pop_reg(ret_count(lines.take(i)));
        let b = pop_reg(ret_count(lines.take(j)));
        assert(a.skip(14) =~= dec(ret_count(lines.take(i))));
        assert(b.skip(14) =~= dec(ret_count(lines.take(j))));
        lemma_dec_injective(ret_count(lines.take(i)), ret_count(lines.take(j)));
    }
}

/// The handle registers of the pops never collide with the function's
/// numbered registers `%r<n>`.
pub proof fn lemma_pop_reg_not_numbered(k: nat, n: nat)
    ensures
        pop_reg(k) != reg_name(n),
{
    reveal_strlit("%shadow_pop_l_");
    reveal_strlit("%r");
    assert(pop_reg(k)[1] == 's');
    assert(reg_name(n)[1] == 'r');
}

/// Past a `ret` line the count of earlier `ret`s is larger.
proof fn lemma_ret_count_grows(lines: Seq<Seq<char>>, i: int, j: int)
    requires
        0 <= i < j <= lines.len(),
        is_ret_line(lines[i]),
    ensures
        ret_count(lines.take(i)) < ret_count(lines.take(j)),
    decreases j - i,
{
    assert(lines.take(i + 1).drop_last() =~= lines.take(i));
    if j == i + 1 {
    } else {
        lemma_ret_count_grows(lines, i, j - 1);
        assert(lines.take(j).drop_last() =~= lines.take(j - 1));
    }
}

/// Text without `ret` lines is only re-split into lines: each line comes
/// out followed by a newline, and nothing is inserted.
pub proof fn lemma_no_ret_unchanged(lines: Seq<Seq<char>>, slot: Seq<char>)
    requires
        forall|i: int| 0 <= i < lines.len() ==> !is_ret_line(#[trigger] lines[i]),
    ensures
        rewrite_lines(lines, slot) == crate::text::lines_text(lines),
    decreases lines.len(),
{
    if lines.len() > 0 {
        let p = lines.drop_last();
        assert forall|i: int| 0 <= i < p.len() implies !is_ret_line(#[trigger] p[i]) by {
            assert(p[i] == lines[i]);
        }
        lemma_no_ret_unchanged(p, slot);
        assert(!is_ret_line(lines[lines.len() - 1]));
        reveal_strlit("\n");
        assert("\n"@ =~= seq!['\n']);
    }
}

/// Exec form of `is_ws`.
pub(crate) fn is_ws_char(c: char) -> (b: bool)
    ensures
        b == is_ws(c),
{
    ('\u{9}' <= c && c <= '\u{d}') || c == ' ' || c == '\u{85}' || c == '\u{a0}' || c == '\u{1680}'
        || ('\u{2000}' <= c && c <= '\u{200a}') || c == '\u{2028}' || c == '\u{2029}' || c == '\u{202f}'
        || c == '\u{205f}' || c == '\u{3000}'
}

/// Index of the first non-whitespace character of `v` (or its length).
pub(crate) fn first_non_ws(v: &Vec<char>) -> (j: usize)
    ensures
        j <= v.len(),
        trim_start(v@) == v@.skip(j as int),
{
    let mut j: usize = 0;
    assert(v@.skip(0) =~= v@);
    while j < v.len() && is_ws_char(v[j])
        invariant
            j <= v.len(),
            trim_start(v@) == trim_start(v@.skip(j as int)),
        decreases v.len() - j,
    {
        assert(v@.skip(j as int).drop_first() =~= v@.skip(j + 1));
        j = j + 1;
    }
    j
}

/// Whether `v[j..]` starts with `p`.
fn has_prefix_at(v: &Vec<char>, j: usize, p: &Vec<char>) -> (b: bool)
    requires
        j <= v.len(),
    ensures
        b == starts_with(v@.skip(j as int), p@),
{
    if p.len() > v.len() - j {
        return false;
    }
    let mut k: usize = 0;
    while k < p.len()
        invariant
            k <= p.len(),
            j + p.len() <= v.len(),
            v@.skip(j as int).take(k as int) == p@.take(k as int),
        decreases p.len() - k,
    {
        if v[j + k] != p[k] {
            assert(v@.skip(j as int).take(p.len() as int)[k as int] != p@[k as int]);
            return false;
        }
        k = k + 1;
        assert(v@.skip(j as int).take(k as int) =~= p@.take(k as int));
    }
    assert(p@.take(p.len() as int) =~= p@);
    true
}

/// The literal patterns the rewrite looks for.
struct RetPatterns {
    ret_sp: Vec<char>,
    ret_void: Vec<char>,
}

impl RetPatterns {
    spec fn wf(&self) -> bool {
        &&& self.ret_sp@ == "ret "@
        &&& self.ret_void@ == "ret void"@
    }

    fn new() -> (p: Self)
        ensures
            p.wf(),
    {
        RetPatterns { ret_sp: chars_of("ret "), ret_void: chars_of("ret void") }
    }

    /// Exec form of `is_ret_line`.
    fn matches(&self, line: &Vec<char>) -> (b: bool)
        requires
            self.wf(),
        ensures
            b == is_ret_line(line@),
    {
        let j = first_non_ws(line);
        let sp = has_prefix_at(line, j, &self.ret_sp);
        let void = line.len() - j == self.ret_void.len() && has_prefix_at(line, j, &self.ret_void);
        proof {
            let t = line@.skip(j as int);
            if t.len() == self.ret_void@.len() && starts_with(t, self.ret_void@) {
                assert(t =~= t.take(self.ret_void@.len() as int));
            }
            if t == "ret void"@ {
                assert(t.take(t.len() as int) =~= t);
            }
        }
        sp || void
    }
}

/// Appends `render_line(line, slot, k)`.
fn push_rendered(out: &mut String, line: &Vec<char>, slot: &str, k: usize, is_ret: bool)
    requires
        is_ret == is_ret_line(line@),
    ensures
        final(out)@ == old(out)@ + render_line(line@, slot@, k as nat),
{
    if is_ret {
        out.append("  ");
        out.append("%shadow_pop_l_");
        push_dec(out, k as u64);
        out.append(" = load i64, ptr ");
        out.append(slot);
        out.append("\n");
        out.append("  call void @js_shadow_frame_pop(i64 ");
        out.append("%shadow_pop_l_");
        push_dec(out, k as u64);
        out.append(")\n");
    }
    push_chars(out, line);
    out.append("\n");
    assert(out@ =~= old(out)@ + render_line(line@, slot@, k as nat));
}

/// `ret_count` never exceeds the number of lines.
proof fn lemma_ret_count_bound(lines: Seq<Seq<char>>)
    ensures
        ret_count(lines) <= lines.len(),
    decreases lines.len(),
{
    if lines.len() > 0 {
        lemma_ret_count_bound(lines.drop_last());
    }
}

/// `segments` has at most one more piece than the text has characters.
proof fn lemma_segments_len(s: Seq<char>)
    ensures
        1 <= segments(s).len() <= s.len() + 1,
    decreases s.len(),
{
    if s.len() > 0 {
        lemma_segments_len(s.drop_last());
    }
}

/// Rewrites `ir` so that every `ret` line is preceded by a reload of the
/// frame handle from `slot` and a call to `js_shadow_frame_pop`.
pub fn pop_shadow_frames(ir: &str, slot: &str) -> (out: String)
    ensures
        out@ == rewrite_lines(lines_of(ir@), slot@),
{
    let chars = chars_of(ir);
    let pats = RetPatterns::new();
    let mut out = String::new();
    let mut cur: Vec<char> = Vec::new();
    let mut seq: usize = 0;
    let mut i: usize = 0;
    proof {
        assert(chars@.take(0) =~= Seq::<char>::empty());
    }
    while i < chars.len()
        invariant
            pats.wf(),
            i <= chars.len(),
            chars@ == ir@,
            cur@ == segments(chars@.take(i as int)).last(),
            out@ == rewrite_lines(ended_lines(segments(chars@.take(i as int)).drop_last()), slot@),
            seq == ret_count(ended_lines(segments(chars@.take(i as int)).drop_last())),
            segments(chars@.take(i as int)).len() <= i + 1,
        decreases chars.len() - i,
    {
        let c = chars[i];
        let ghost s0 = chars@.take(i as int);
        let ghost s1 = chars@.take(i + 1);
        let ghost segs0 = segments(s0);
        let ghost done0 = ended_lines(segs0.drop_last());
        proof {
            assert(s1.drop_last() =~= s0);
            assert(s1.last() == c);
            lemma_segments_len(s0);
        }
        if c == '\n' {
            let ghost piece = cur@;
            if cur.len() > 0 && cur[cur.len() - 1] == '\r' {
                cur.pop();
            }
            assert(cur@ =~= strip_cr(piece));
            let is_ret = pats.matches(&cur);
            push_rendered(&mut out, &cur, slot, seq, is_ret);
            proof {
                lemma_ret_count_bound(done0);
                let segs1 = segments(s1);
                assert(segs1 == segs0.push(Seq::empty()));
                assert(segs1.drop_last() =~= segs0);
                assert(segs0 =~= segs0.drop_last().push(piece));
                assert(ended_lines(segs0) =~= done0.push(strip_cr(piece)));
                assert(ended_lines(segs0).drop_last() =~= done0);
            }
            if is_ret {
                seq = seq + 1;
            }
            cur = Vec::new();
            proof {
                assert(cur@ =~= segments(s1).last());
            }
        } else {
            cur.push(c);
            proof {
                let segs1 = segments(s1);
                assert(segs1 == segs0.update(segs0.len() - 1, segs0.last().push(c)));
                assert(segs1.drop_last() =~= segs0.drop_last());
            }
        }
        i = i + 1;
    }
    proof {
        assert(chars@.take(chars.len() as int) =~= chars@);
        lemma_segments_len(chars@);
    }
    let ghost segs = segments(ir@);
    let ghost done = ended_lines(segs.drop_last());
    if cur.len() > 0 {
        let is_ret = pats.matches(&cur);
        proof {
            lemma_ret_count_bound(done);
        }
        push_rendered(&mut out, &cur, slot, seq, is_ret);
        proof {
            assert(done.push(segs.last()).drop_last() =~= done);
        }
    }
    out
}

} // verus!
