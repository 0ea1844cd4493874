//! Walkers that collect the locals a piece of code refers to.
//!
//! `collect_ref_ids_*` gathers every local read, written, updated or
//! mutated in place (array and set mutators that name a local), plus the
//! explicit captures of closure literals; it is used to find module-level
//! `let`s that must become globals. `collect_localset_ids_*` gathers only
//! the targets of `LocalSet`: a local never written that way keeps its
//! integer initial value for its whole life.
//!
//! Both walk every sub-expression of every expression and descend into
//! closure bodies. They differ on statements: the reference walker looks
//! into expression statements, `throw`, `return`, `let`, `if`, `while`,
//! `do`/`while` and `for`; the `LocalSet` walker also into `try`,
//! `switch` and labeled statements.

use vstd::prelude::*;

use std::collections::HashSet;

use crate::hir::{Expr, OpKind, Stmt, SwitchCase};

verus! {

broadcast use vstd::std_specs::hash::group_hash_axioms;

/// Operations whose sub-expressions the reference and `LocalSet` walkers
/// visit; they do not look into any other `Op`.
pub open spec fn entered_by_ref_walk(k: OpKind) -> bool {
    match k {
        OpKind::Array | OpKind::ArrayFilter | OpKind::ArrayFind | OpKind::ArrayFindIndex
        | OpKind::ArrayFindLast | OpKind::ArrayFindLastIndex | OpKind::ArrayFlatMap
        | OpKind::ArrayForEach | OpKind::ArrayFrom | OpKind::ArrayFromMapped | OpKind::ArrayIncludes
        | OpKind::ArrayJoin | OpKind::ArrayMap | OpKind::ArrayReduce | OpKind::ArrayReduceRight
        | OpKind::ArraySlice | OpKind::ArraySort | OpKind::ArraySpread | OpKind::Await
        | OpKind::BooleanCoerce | OpKind::BufferAlloc | OpKind::BufferFrom | OpKind::CallSpread
        | OpKind::DateNew | OpKind::DateParse | OpKind::DateToISOString | OpKind::Delete
        | OpKind::EnvGetDynamic | OpKind::ErrorNew | OpKind::ErrorNewWithCause
        | OpKind::FinalizationRegistryNew | OpKind::FinalizationRegistryRegister
        | OpKind::FinalizationRegistryUnregister | OpKind::FsExistsSync | OpKind::FsMkdirSync
        | OpKind::FsReadFileBinary | OpKind::FsReadFileSync | OpKind::FsUnlinkSync
        | OpKind::FsWriteFileSync | OpKind::In | OpKind::IndexGet | OpKind::IndexSet
        | OpKind::InstanceOf | OpKind::IsFinite | OpKind::IsNaN | OpKind::IsUndefinedOrBareNan
        | OpKind::IteratorToArray | OpKind::JsonParse | OpKind::JsonParseReviver
        | OpKind::JsonParseWithReviver | OpKind::JsonStringifyFull | OpKind::Logical
        | OpKind::MapClear | OpKind::MapDelete | OpKind::MapGet | OpKind::MapHas | OpKind::MapNew
        | OpKind::MapSet | OpKind::MathAbs | OpKind::MathCeil | OpKind::MathClz32
        | OpKind::MathFloor | OpKind::MathLog | OpKind::MathLog10 | OpKind::MathLog1p
        | OpKind::MathLog2 | OpKind::MathMax | OpKind::MathMaxSpread | OpKind::MathMin
        | OpKind::MathMinSpread | OpKind::MathPow | OpKind::MathRound | OpKind::MathSqrt
        | OpKind::NativeMethodCall | OpKind::New | OpKind::NumberCoerce | OpKind::NumberIsFinite
        | OpKind::NumberIsInteger | OpKind::NumberIsNaN | OpKind::Object | OpKind::ObjectCreate
        | OpKind::ObjectEntries | OpKind::ObjectFromEntries | OpKind::ObjectGroupBy
        | OpKind::ObjectHasOwn | OpKind::ObjectIs | OpKind::ObjectIsExtensible
        | OpKind::ObjectIsFrozen | OpKind::ObjectIsSealed | OpKind::ObjectKeys | OpKind::ObjectRest
        | OpKind::ObjectSpread | OpKind::ObjectValues | OpKind::ParseFloat | OpKind::ParseInt
        | OpKind::PathBasename | OpKind::PathBasenameExt | OpKind::PathDirname | OpKind::PathExtname
        | OpKind::PathFormat | OpKind::PathJoin | OpKind::PathNormalize | OpKind::PathParse
        | OpKind::PathRelative | OpKind::PathResolve | OpKind::ProcessNextTick | OpKind::PropertyGet
        | OpKind::PropertySet | OpKind::PropertyUpdate | OpKind::QueueMicrotask | OpKind::RegExpExec
        | OpKind::RegExpTest | OpKind::Sequence | OpKind::SetClear | OpKind::SetDelete
        | OpKind::SetHas | OpKind::SetNew | OpKind::SetNewFromArray | OpKind::SetSize
        | OpKind::StaticFieldSet | OpKind::StaticMethodCall | OpKind::StringCoerce
        | OpKind::StringMatch | OpKind::StructuredClone | OpKind::SuperCall
        | OpKind::SuperMethodCall | OpKind::TypeOf | OpKind::TypedArrayNew | OpKind::Uint8ArrayFrom
        | OpKind::Uint8ArrayGet | OpKind::Uint8ArrayLength | OpKind::Uint8ArrayNew
        | OpKind::Uint8ArraySet | OpKind::Unary | OpKind::Void | OpKind::WeakRefDeref
        | OpKind::WeakRefNew => true,
        _ => false,
    }
}

/// Operations whose sub-expressions the closure walker visits.
pub open spec fn entered_by_closure_walk(k: OpKind) -> bool {
    match k {
        OpKind::Array | OpKind::ArrayAt | OpKind::ArrayCopyWithin | OpKind::ArrayEntries
        | OpKind::ArrayEvery | OpKind::ArrayFilter | OpKind::ArrayFind | OpKind::ArrayFindIndex
        | OpKind::ArrayFindLast | OpKind::ArrayFindLastIndex | OpKind::ArrayFlat
        | OpKind::ArrayFlatMap | OpKind::ArrayForEach | OpKind::ArrayFrom | OpKind::ArrayFromMapped
        | OpKind::ArrayIncludes | OpKind::ArrayIndexOf | OpKind::ArrayIsArray | OpKind::ArrayJoin
        | OpKind::ArrayKeys | OpKind::ArrayMap | OpKind::ArrayReduce | OpKind::ArrayReduceRight
        | OpKind::ArraySlice | OpKind::ArraySome | OpKind::ArraySort | OpKind::ArraySpread
        | OpKind::ArrayToReversed | OpKind::ArrayToSorted | OpKind::ArrayToSpliced
        | OpKind::ArrayUnshift | OpKind::ArrayValues | OpKind::ArrayWith | OpKind::Atob
        | OpKind::Await | OpKind::BooleanCoerce | OpKind::Btoa | OpKind::CallSpread
        | OpKind::ChildProcessExec | OpKind::ChildProcessExecSync
        | OpKind::ChildProcessGetProcessStatus | OpKind::ChildProcessKillProcess
        | OpKind::ChildProcessSpawn | OpKind::ChildProcessSpawnBackground
        | OpKind::ChildProcessSpawnSync | OpKind::Delete | OpKind::ErrorNew
        | OpKind::FetchGetWithAuth | OpKind::FetchPostWithAuth | OpKind::FetchWithOptions
        | OpKind::FinalizationRegistryNew | OpKind::FinalizationRegistryRegister
        | OpKind::FinalizationRegistryUnregister | OpKind::FsExistsSync | OpKind::FsReadFileBinary
        | OpKind::FsUnlinkSync | OpKind::FsWriteFileSync | OpKind::I18nString | OpKind::In
        | OpKind::IndexGet | OpKind::IndexSet | OpKind::InstanceOf | OpKind::IsFinite
        | OpKind::IsNaN | OpKind::IsUndefinedOrBareNan | OpKind::IteratorToArray | OpKind::JsonParse
        | OpKind::JsonParseReviver | OpKind::JsonParseWithReviver | OpKind::JsonStringify
        | OpKind::JsonStringifyFull | OpKind::JsonStringifyPretty | OpKind::Logical
        | OpKind::MapDelete | OpKind::MapGet | OpKind::MapHas | OpKind::MapSet | OpKind::MathAbs
        | OpKind::MathCeil | OpKind::MathFloor | OpKind::MathMax | OpKind::MathMaxSpread
        | OpKind::MathMin | OpKind::MathMinSpread | OpKind::MathPow | OpKind::MathRound
        | OpKind::MathSqrt | OpKind::NativeMethodCall | OpKind::New | OpKind::NewDynamic
        | OpKind::NumberCoerce | OpKind::NumberIsFinite | OpKind::NumberIsNaN | OpKind::Object
        | OpKind::ObjectEntries | OpKind::ObjectGroupBy | OpKind::ObjectKeys | OpKind::ObjectRest
        | OpKind::ObjectSpread | OpKind::ObjectValues | OpKind::ParseFloat | OpKind::ParseInt
        | OpKind::PathJoin | OpKind::ProcessNextTick | OpKind::ProcessOn | OpKind::PropertyGet
        | OpKind::PropertySet | OpKind::QueueMicrotask | OpKind::RegExpExec | OpKind::RegExpTest
        | OpKind::Sequence | OpKind::SetDelete | OpKind::SetHas | OpKind::SetNewFromArray
        | OpKind::SetSize | OpKind::StaticFieldSet | OpKind::StaticMethodCall | OpKind::StringCoerce
        | OpKind::StructuredClone | OpKind::SuperCall | OpKind::SuperMethodCall | OpKind::TypeOf
        | OpKind::TypedArrayNew | OpKind::Uint8ArrayFrom | OpKind::Unary | OpKind::Void
        | OpKind::WeakRefDeref | OpKind::WeakRefNew | OpKind::Yield => true,
        _ => false,
    }
}

fn enters_ref_walk(k: &OpKind) -> (b: bool)
    ensures
        b == entered_by_ref_walk(*k),
{
    match k {
        OpKind::Array | OpKind::ArrayFilter | OpKind::ArrayFind | OpKind::ArrayFindIndex
        | OpKind::ArrayFindLast | OpKind::ArrayFindLastIndex | OpKind::ArrayFlatMap
        | OpKind::ArrayForEach | OpKind::ArrayFrom | OpKind::ArrayFromMapped | OpKind::ArrayIncludes
        | OpKind::ArrayJoin | OpKind::ArrayMap | OpKind::ArrayReduce | OpKind::ArrayReduceRight
        | OpKind::ArraySlice | OpKind::ArraySort | OpKind::ArraySpread | OpKind::Await
        | OpKind::BooleanCoerce | OpKind::BufferAlloc | OpKind::BufferFrom | OpKind::CallSpread
        | OpKind::DateNew | OpKind::DateParse | OpKind::DateToISOString | OpKind::Delete
        | OpKind::EnvGetDynamic | OpKind::ErrorNew | OpKind::ErrorNewWithCause
        | OpKind::FinalizationRegistryNew | OpKind::FinalizationRegistryRegister
        | OpKind::FinalizationRegistryUnregister | OpKind::FsExistsSync | OpKind::FsMkdirSync
        | OpKind::FsReadFileBinary | OpKind::FsReadFileSync | OpKind::FsUnlinkSync
        | OpKind::FsWriteFileSync | OpKind::In | OpKind::IndexGet | OpKind::IndexSet
        | OpKind::InstanceOf | OpKind::IsFinite | OpKind::IsNaN | OpKind::IsUndefinedOrBareNan
        | OpKind::IteratorToArray | OpKind::JsonParse | OpKind::JsonParseReviver
        | OpKind::JsonParseWithReviver | OpKind::JsonStringifyFull | OpKind::Logical
        | OpKind::MapClear | OpKind::MapDelete | OpKind::MapGet | OpKind::MapHas | OpKind::MapNew
        | OpKind::MapSet | OpKind::MathAbs | OpKind::MathCeil | OpKind::MathClz32
        | OpKind::MathFloor | OpKind::MathLog | OpKind::MathLog10 | OpKind::MathLog1p
        | OpKind::MathLog2 | OpKind::MathMax | OpKind::MathMaxSpread | OpKind::MathMin
        | OpKind::MathMinSpread | OpKind::MathPow | OpKind::MathRound | OpKind::MathSqrt
        | OpKind::NativeMethodCall | OpKind::New | OpKind::NumberCoerce | OpKind::NumberIsFinite
        | OpKind::NumberIsInteger | OpKind::NumberIsNaN | OpKind::Object | OpKind::ObjectCreate
        | OpKind::ObjectEntries | OpKind::ObjectFromEntries | OpKind::ObjectGroupBy
        | OpKind::ObjectHasOwn | OpKind::ObjectIs | OpKind::ObjectIsExtensible
        | OpKind::ObjectIsFrozen | OpKind::ObjectIsSealed | OpKind::ObjectKeys | OpKind::ObjectRest
        | OpKind::ObjectSpread | OpKind::ObjectValues | OpKind::ParseFloat | OpKind::ParseInt
        | OpKind::PathBasename | OpKind::PathBasenameExt | OpKind::PathDirname | OpKind::PathExtname
        | OpKind::PathFormat | OpKind::PathJoin | OpKind::PathNormalize | OpKind::PathParse
        | OpKind::PathRelative | OpKind::PathResolve | OpKind::ProcessNextTick | OpKind::PropertyGet
        | OpKind::PropertySet | OpKind::PropertyUpdate | OpKind::QueueMicrotask | OpKind::RegExpExec
        | OpKind::RegExpTest | OpKind::Sequence | OpKind::SetClear | OpKind::SetDelete
        | OpKind::SetHas | OpKind::SetNew | OpKind::SetNewFromArray | OpKind::SetSize
        | OpKind::StaticFieldSet | OpKind::StaticMethodCall | OpKind::StringCoerce
        | OpKind::StringMatch | OpKind::StructuredClone | OpKind::SuperCall
        | OpKind::SuperMethodCall | OpKind::TypeOf | OpKind::TypedArrayNew | OpKind::Uint8ArrayFrom
        | OpKind::Uint8ArrayGet | OpKind::Uint8ArrayLength | OpKind::Uint8ArrayNew
        | OpKind::Uint8ArraySet | OpKind::Unary | OpKind::Void | OpKind::WeakRefDeref
        | OpKind::WeakRefNew => true,
        _ => false,
    }
}

fn enters_closure_walk(k: &OpKind) -> (b: bool)
    ensures
        b == entered_by_closure_walk(*k),
{
    match k {
        OpKind::Array | OpKind::ArrayAt | OpKind::ArrayCopyWithin | OpKind::ArrayEntries
        | OpKind::ArrayEvery | OpKind::ArrayFilter | OpKind::ArrayFind | OpKind::ArrayFindIndex
        | OpKind::ArrayFindLast | OpKind::ArrayFindLastIndex | OpKind::ArrayFlat
        | OpKind::ArrayFlatMap | OpKind::ArrayForEach | OpKind::ArrayFrom | OpKind::ArrayFromMapped
        | OpKind::ArrayIncludes | OpKind::ArrayIndexOf | OpKind::ArrayIsArray | OpKind::ArrayJoin
        | OpKind::ArrayKeys | OpKind::ArrayMap | OpKind::ArrayReduce | OpKind::ArrayReduceRight
        | OpKind::ArraySlice | OpKind::ArraySome | OpKind::ArraySort | OpKind::ArraySpread
        | OpKind::ArrayToReversed | OpKind::ArrayToSorted | OpKind::ArrayToSpliced
        | OpKind::ArrayUnshift | OpKind::ArrayValues | OpKind::ArrayWith | OpKind::Atob
        | OpKind::Await | OpKind::BooleanCoerce | OpKind::Btoa | OpKind::CallSpread
        | OpKind::ChildProcessExec | OpKind::ChildProcessExecSync
        | OpKind::ChildProcessGetProcessStatus | OpKind::ChildProcessKillProcess
        | OpKind::ChildProcessSpawn | OpKind::ChildProcessSpawnBackground
        | OpKind::ChildProcessSpawnSync | OpKind::Delete | OpKind::ErrorNew
        | OpKind::FetchGetWithAuth | OpKind::FetchPostWithAuth | OpKind::FetchWithOptions
        | OpKind::FinalizationRegistryNew | OpKind::FinalizationRegistryRegister
        | OpKind::FinalizationRegistryUnregister | OpKind::FsExistsSync | OpKind::FsReadFileBinary
        | OpKind::FsUnlinkSync | OpKind::FsWriteFileSync | OpKind::I18nString | OpKind::In
        | OpKind::IndexGet | OpKind::IndexSet | OpKind::InstanceOf | OpKind::IsFinite
        | OpKind::IsNaN | OpKind::IsUndefinedOrBareNan | OpKind::IteratorToArray | OpKind::JsonParse
        | OpKind::JsonParseReviver | OpKind::JsonParseWithReviver | OpKind::JsonStringify
        | OpKind::JsonStringifyFull | OpKind::JsonStringifyPretty | OpKind::Logical
        | OpKind::MapDelete | OpKind::MapGet | OpKind::MapHas | OpKind::MapSet | OpKind::MathAbs
        | OpKind::MathCeil | OpKind::MathFloor | OpKind::MathMax | OpKind::MathMaxSpread
        | OpKind::MathMin | OpKind::MathMinSpread | OpKind::MathPow | OpKind::MathRound
        | OpKind::MathSqrt | OpKind::NativeMethodCall | OpKind::New | OpKind::NewDynamic
        | OpKind::NumberCoerce | OpKind::NumberIsFinite | OpKind::NumberIsNaN | OpKind::Object
        | OpKind::ObjectEntries | OpKind::ObjectGroupBy | OpKind::ObjectKeys | OpKind::ObjectRest
        | OpKind::ObjectSpread | OpKind::ObjectValues | OpKind::ParseFloat | OpKind::ParseInt
        | OpKind::PathJoin | OpKind::ProcessNextTick | OpKind::ProcessOn | OpKind::PropertyGet
        | OpKind::PropertySet | OpKind::QueueMicrotask | OpKind::RegExpExec | OpKind::RegExpTest
        | OpKind::Sequence | OpKind::SetDelete | OpKind::SetHas | OpKind::SetNewFromArray
        | OpKind::SetSize | OpKind::StaticFieldSet | OpKind::StaticMethodCall | OpKind::StringCoerce
        | OpKind::StructuredClone | OpKind::SuperCall | OpKind::SuperMethodCall | OpKind::TypeOf
        | OpKind::TypedArrayNew | OpKind::Uint8ArrayFrom | OpKind::Unary | OpKind::Void
        | OpKind::WeakRefDeref | OpKind::WeakRefNew | OpKind::Yield => true,
        _ => false,
    }
}

/// The ids in a list, as a set.
pub open spec fn id_set(ids: Seq<u32>) -> Set<u32>
    decreases ids.len(),
{
    if ids.len() == 0 {
        Set::empty()
    } else {
        id_set(ids.drop_last()).insert(ids.last())
    }
}

/// Locals that `e` refers to.
pub open spec fn ref_ids(e: Expr) -> Set<u32>
    decreases e,
{
    match e {
        Expr::LocalGet(id) => set![id],
        Expr::LocalSet(id, value) => set![id] + ref_ids(*value),
        Expr::Update { id } => set![id],
        Expr::Binary { left, right, .. } => ref_ids(*left) + ref_ids(*right),
        Expr::Compare { left, right, .. } => ref_ids(*left) + ref_ids(*right),
        Expr::Call { callee, args } => ref_ids(*callee) + ref_ids_list(args@),
        Expr::Conditional { condition, then_expr, else_expr } => ref_ids(*condition) + ref_ids(*then_expr)
            + ref_ids(*else_expr),
        Expr::Closure { body, captures, .. } => id_set(captures@) + ref_ids_stmts(body@),
        Expr::ArrayPush { array_id, value } => set![array_id] + ref_ids(*value),
        Expr::ArrayPop(id) => set![id],
        Expr::ArrayShift(id) => set![id],
        Expr::ArraySplice { array_id, start, delete_count, items } => set![array_id] + ref_ids(*start) + (
        match delete_count {
            Some(d) => ref_ids(*d),
            None => Set::empty(),
        }) + ref_ids_list(items@),
        Expr::SetAdd { set_id, value } => set![set_id] + ref_ids(*value),
        Expr::Op { kind, args } => if entered_by_ref_walk(kind) {
            ref_ids_list(args@)
        } else {
            Set::empty()
        },
        _ => Set::empty(),
    }
}

pub open spec fn ref_ids_list(es: Seq<Expr>) -> Set<u32>
    decreases es,
{
    if es.len() == 0 {
        Set::empty()
    } else {
        ref_ids_list(es.drop_last()) + ref_ids(es.last())
    }
}

/// Locals that statement `s` refers to, as far as the reference walker
/// looks.
pub open spec fn ref_ids_stmt(s: Stmt) -> Set<u32>
    decreases s,
{
    match s {
        Stmt::Expr(e) => ref_ids(e),
        Stmt::Throw(e) => ref_ids(e),
        Stmt::Return(opt) => match opt {
            Some(e) => ref_ids(e),
            None => Set::empty(),
        },
        Stmt::Let { init, .. } => match init {
            Some(e) => ref_ids(e),
            None => Set::empty(),
        },
        Stmt::If { condition, then_branch, else_branch } => ref_ids(condition) + ref_ids_stmts(then_branch@) + (
        match else_branch {
            Some(eb) => ref_ids_stmts(eb@),
            None => Set::empty(),
        }),
        Stmt::While { condition, body } => ref_ids(condition) + ref_ids_stmts(body@),
        Stmt::DoWhile { body, condition } => ref_ids_stmts(body@) + ref_ids(condition),
        Stmt::For { init, condition, update, body } => (match init {
            Some(i) => ref_ids_stmt(*i),
            None => Set::empty(),
        }) + (match condition {
            Some(c) => ref_ids(c),
            None => Set::empty(),
        }) + (match update {
            Some(u) => ref_ids(u),
            None => Set::empty(),
        }) + ref_ids_stmts(body@),
        _ => Set::empty(),
    }
}

pub open spec fn ref_ids_stmts(ss: Seq<Stmt>) -> Set<u32>
    decreases ss,
{
    if ss.len() == 0 {
        Set::empty()
    } else {
        ref_ids_stmts(ss.drop_last()) + ref_ids_stmt(ss.last())
    }
}

/// Locals that `e` writes with `LocalSet`.
pub open spec fn localset_ids(e: Expr) -> Set<u32>
    decreases e,
{
    match e {
        Expr::LocalSet(id, value) => set![id] + localset_ids(*value),
        Expr::Binary { left, right, .. } => localset_ids(*left) + localset_ids(*right),
        Expr::Compare { left, right, .. } => localset_ids(*left) + localset_ids(*right),
        Expr::Call { callee, args } => localset_ids(*callee) + localset_ids_list(args@),
        Expr::Conditional { condition, then_expr, else_expr } => localset_ids(*condition) + localset_ids(
            *then_expr,
        ) + localset_ids(*else_expr),
        Expr::Closure { body, .. } => localset_ids_stmts(body@),
        Expr::ArrayPush { value, .. } => localset_ids(*value),
        Expr::ArraySplice { start, delete_count, items, .. } => localset_ids(*start) + (match delete_count {
            Some(d) => localset_ids(*d),
            None => Set::empty(),
        }) + localset_ids_list(items@),
        Expr::SetAdd { value, .. } => localset_ids(*value),
        Expr::Op { kind, args } => if entered_by_ref_walk(kind) {
            localset_ids_list(args@)
        } else {
            Set::empty()
        },
        _ => Set::empty(),
    }
}

pub open spec fn localset_ids_list(es: Seq<Expr>) -> Set<u32>
    decreases es,
{
    if es.len() == 0 {
        Set::empty()
    } else {
        localset_ids_list(es.drop_last()) + localset_ids(es.last())
    }
}

pub open spec fn localset_ids_stmt(s: Stmt) -> Set<u32>
    decreases s,
{
    match s {
        Stmt::Expr(e) => localset_ids(e),
        Stmt::Throw(e) => localset_ids(e),
        Stmt::Return(opt) => match opt {
            Some(e) => localset_ids(e),
            None => Set::empty(),
        },
        Stmt::Let { init, .. } => match init {
            Some(e) => localset_ids(e),
            None => Set::empty(),
        },
        Stmt::If { condition, then_branch, else_branch } => localset_ids(condition) + localset_ids_stmts(
            then_branch@,
        ) + (match else_branch {
            Some(eb) => localset_ids_stmts(eb@),
            None => Set::empty(),
        }),
        Stmt::While { condition, body } => localset_ids(condition) + localset_ids_stmts(body@),
        Stmt::DoWhile { body, condition } => localset_ids_stmts(body@) + localset_ids(condition),
        Stmt::For { init, condition, update, body } => (match init {
            Some(i) => localset_ids_stmt(*i),
            None => Set::empty(),
        }) + (match condition {
            Some(c) => localset_ids(c),
            None => Set::empty(),
        }) + (match update {
            Some(u) => localset_ids(u),
            None => Set::empty(),
        }) + localset_ids_stmts(body@),
        Stmt::Try { body, catch, finally } => localset_ids_stmts(body@) + (match catch {
            Some(c) => localset_ids_stmts(c.body@),
            None => Set::empty(),
        }) + (match finally {
            Some(f) => localset_ids_stmts(f@),
            None => Set::empty(),
        }),
        Stmt::Switch { discriminant, cases } => localset_ids(discriminant) + localset_ids_cases(cases@),
        Stmt::Labeled { body, .. } => localset_ids_stmt(*body),
        Stmt::Other => Set::empty(),
    }
}

pub open spec fn localset_ids_stmts(ss: Seq<Stmt>) -> Set<u32>
    decreases ss,
{
    if ss.len() == 0 {
        Set::empty()
    } else {
        localset_ids_stmts(ss.drop_last()) + localset_ids_stmt(ss.last())
    }
}

/// Each case's test, then its body, case by case.
pub open spec fn localset_ids_cases(cs: Seq<SwitchCase>) -> Set<u32>
    decreases cs,
{
    if cs.len() == 0 {
        Set::empty()
    } else {
        localset_ids_cases(cs.drop_last()) + (match cs.last().test {
            Some(t) => localset_ids(t),
            None => Set::empty(),
        }) + localset_ids_stmts(cs.last().body@)
    }
}

fn insert_id(out: &mut HashSet<u32>, id: u32)
    ensures
        final(out)@ == old(out)@.insert(id),
{
    out.insert(id);
}

/// Inserts every id of `ids`.
pub(crate) fn insert_ids(out: &mut HashSet<u32>, ids: &Vec<u32>)
    ensures
        final(out)@ == old(out)@ + id_set(ids@),
{
    let ghost start = out@;
    let mut i: usize = 0;
    while i < ids.len()
        invariant
            i <= ids.len(),
            out@ == start + id_set(ids@.take(i as int)),
        decreases ids.len() - i,
    {
        assert(ids@.take(i + 1).drop_last() =~= ids@.take(i as int));
        insert_id(out, ids[i]);
        i = i + 1;
        assert(out@ =~= start + id_set(ids@.take(i as int)));
    }
    assert(ids@.take(ids.len() as int) =~= ids@);
}

/// Walk a sequence of statements and collect all local ids referenced via
/// `LocalGet`, `LocalSet` or `Update` (and the other forms `ref_ids`
/// lists).
pub fn collect_ref_ids_in_stmts(stmts: &[Stmt], out: &mut HashSet<u32>)
    ensures
        final(out)@ == old(out)@ + ref_ids_stmts(stmts@),
    decreases stmts@,
{
    let ghost start = out@;
    let mut i: usize = 0;
    while i < stmts.len()
        invariant
            i <= stmts.len(),
            out@ == start + ref_ids_stmts(stmts@.take(i as int)),
        decreases stmts.len() - i,
    {
        assert(stmts@.take(i + 1).drop_last() =~= stmts@.take(i as int));
        ref_ids_in_stmt(&stmts[i], out);
        i = i + 1;
        assert(out@ =~= start + ref_ids_stmts(stmts@.take(i as int)));
    }
    assert(stmts@.take(stmts.len() as int) =~= stmts@);
}

fn ref_ids_in_stmt(s: &Stmt, out: &mut HashSet<u32>)
    ensures
        final(out)@ == old(out)@ + ref_ids_stmt(*s),
    decreases s,
{
    match s {
        Stmt::Expr(e) | Stmt::Throw(e) => collect_ref_ids_in_expr(e, out),
        Stmt::Return(opt) => {
            if let Some(e) = opt {
                collect_ref_ids_in_expr(e, out);
            }
        },
        Stmt::Let { init, .. } => {
            if let Some(e) = init {
                collect_ref_ids_in_expr(e, out);
            }
        },
        Stmt::If { condition, then_branch, else_branch } => {
            collect_ref_ids_in_expr(condition, out);
            collect_ref_ids_in_stmts(then_branch.as_slice(), out);
            if let Some(eb) = else_branch {
                collect_ref_ids_in_stmts(eb.as_slice(), out);
            }
        },
        Stmt::While { condition, body } => {
            collect_ref_ids_in_expr(condition, out);
            collect_ref_ids_in_stmts(body.as_slice(), out);
        },
        Stmt::DoWhile { body, condition } => {
            collect_ref_ids_in_stmts(body.as_slice(), out);
            collect_ref_ids_in_expr(condition, out);
        },
        Stmt::For { init, condition, update, body } => {
            if let Some(init_stmt) = init {
                ref_ids_in_stmt(init_stmt, out);
            }
            if let Some(cond) = condition {
                collect_ref_ids_in_expr(cond, out);
            }
            if let Some(upd) = update {
                collect_ref_ids_in_expr(upd, out);
            }
            collect_ref_ids_in_stmts(body.as_slice(), out);
        },
        _ => {},
    }
    assert(out@ =~= old(out)@ + ref_ids_stmt(*s));
}

fn ref_ids_in_list(es: &Vec<Expr>, out: &mut HashSet<u32>)
    ensures
        final(out)@ == old(out)@ + ref_ids_list(es@),
    decreases es@,
{
    let ghost start = out@;
    let mut i: usize = 0;
    while i < es.len()
        invariant
            i <= es.len(),
            out@ == start + ref_ids_list(es@.take(i as int)),
        decreases es.len() - i,
    {
        assert(es@.take(i + 1).drop_last() =~= es@.take(i as int));
        collect_ref_ids_in_expr(&es[i], out);
        i = i + 1;
        assert(out@ =~= start + ref_ids_list(es@.take(i as int)));
    }
    assert(es@.take(es.len() as int) =~= es@);
}

/// Adds to `out` every local that `e` refers to (`ref_ids`).
pub fn collect_ref_ids_in_expr(e: &Expr, out: &mut HashSet<u32>)
    ensures
        final(out)@ == old(out)@ + ref_ids(*e),
    decreases e,
{
    match e {
        Expr::LocalGet(id) => {
            insert_id(out, *id);
        },
        Expr::LocalSet(id, value) => {
            insert_id(out, *id);
            collect_ref_ids_in_expr(value, out);
        },
        Expr::Update { id } => {
            insert_id(out, *id);
        },
        Expr::Binary { left, right, .. } | Expr::Compare { left, right, .. } => {
            collect_ref_ids_in_expr(left, out);
            collect_ref_ids_in_expr(right, out);
        },
        Expr::Call { callee, args } => {
            collect_ref_ids_in_expr(callee, out);
            ref_ids_in_list(args, out);
        },
        Expr::Conditional { condition, then_expr, else_expr } => {
            collect_ref_ids_in_expr(condition, out);
            collect_ref_ids_in_expr(then_expr, out);
            collect_ref_ids_in_expr(else_expr, out);
        },
        Expr::Closure { body, captures, .. } => {
            insert_ids(out, captures);
            collect_ref_ids_in_stmts(body.as_slice(), out);
        },
        Expr::ArrayPush { array_id, value } => {
            insert_id(out, *array_id);
            collect_ref_ids_in_expr(value, out);
        },
        Expr::ArrayPop(id) | Expr::ArrayShift(id) => {
            insert_id(out, *id);
        },
        Expr::ArraySplice { array_id, start, delete_count, items } => {
            insert_id(out, *array_id);
            collect_ref_ids_in_expr(start, out);
            if let Some(d) = delete_count {
                collect_ref_ids_in_expr(d, out);
            }
            ref_ids_in_list(items, out);
        },
        Expr::SetAdd { set_id, value } => {
            insert_id(out, *set_id);
            collect_ref_ids_in_expr(value, out);
        },
        Expr::Op { kind, args } => {
            if enters_ref_walk(kind) {
                ref_ids_in_list(args, out);
            }
        },
        _ => {},
    }
    assert(out@ =~= old(out)@ + ref_ids(*e));
}

/// Walk a sequence of statements and collect the targets of every
/// `LocalSet`, closures and nested blocks included.
pub fn collect_localset_ids_in_stmts(stmts: &[Stmt], out: &mut HashSet<u32>)
    ensures
        final(out)@ == old(out)@ + localset_ids_stmts(stmts@),
    decreases stmts@,
{
    let ghost start = out@;
    let mut i: usize = 0;
    while i < stmts.len()
        invariant
            i <= stmts.len(),
            out@ == start + localset_ids_stmts(stmts@.take(i as int)),
        decreases stmts.len() - i,
    {
        assert(stmts@.take(i + 1).drop_last() =~= stmts@.take(i as int));
        localset_ids_in_stmt(&stmts[i], out);
        i = i + 1;
        assert(out@ =~= start + localset_ids_stmts(stmts@.take(i as int)));
    }
    assert(stmts@.take(stmts.len() as int) =~= stmts@);
}

fn localset_ids_in_cases(cases: &Vec<SwitchCase>, out: &mut HashSet<u32>)
    ensures
        final(out)@ == old(out)@ + localset_ids_cases(cases@),
    decreases cases@,
{
    let ghost start = out@;
    let mut i: usize = 0;
    while i < cases.len()
        invariant
            i <= cases.len(),
            out@ == start + localset_ids_cases(cases@.take(i as int)),
        decreases cases.len() - i,
    {
        assert(cases@.take(i + 1).drop_last() =~= cases@.take(i as int));
        let c = &cases[i];
        if let Some(t) = &c.test {
            collect_localset_ids_in_expr(t, out);
        }
        collect_localset_ids_in_stmts(c.body.as_slice(), out);
        i = i + 1;
        assert(out@ =~= start + localset_ids_cases(cases@.take(i as int)));
    }
    assert(cases@.take(cases.len() as int) =~= cases@);
}

fn localset_ids_in_stmt(s: &Stmt, out: &mut HashSet<u32>)
    ensures
        final(out)@ == old(out)@ + localset_ids_stmt(*s),
    decreases s,
{
    match s {
        Stmt::Expr(e) | Stmt::Throw(e) => collect_localset_ids_in_expr(e, out),
        Stmt::Return(opt) => {
            if let Some(e) = opt {
                collect_localset_ids_in_expr(e, out);
            }
        },
        Stmt::Let { init, .. } => {
            if let Some(e) = init {
                collect_localset_ids_in_expr(e, out);
            }
        },
        Stmt::If { condition, then_branch, else_branch } => {
            collect_localset_ids_in_expr(condition, out);
            collect_localset_ids_in_stmts(then_branch.as_slice(), out);
            if let Some(eb) = else_branch {
                collect_localset_ids_in_stmts(eb.as_slice(), out);
            }
        },
        Stmt::While { condition, body } => {
            collect_localset_ids_in_expr(condition, out);
            collect_localset_ids_in_stmts(body.as_slice(), out);
        },
        Stmt::DoWhile { body, condition } => {
            collect_localset_ids_in_stmts(body.as_slice(), out);
            collect_localset_ids_in_expr(condition, out);
        },
        Stmt::For { init, condition, update, body } => {
            if let Some(init_stmt) = init {
                localset_ids_in_stmt(init_stmt, out);
            }
            if let Some(cond) = condition {
                collect_localset_ids_in_expr(cond, out);
            }
            if let Some(upd) = update {
                collect_localset_ids_in_expr(upd, out);
            }
            collect_localset_ids_in_stmts(body.as_slice(), out);
        },
        Stmt::Try { body, catch, finally } => {
            collect_localset_ids_in_stmts(body.as_slice(), out);
            if let Some(c) = catch {
                collect_localset_ids_in_stmts(c.body.as_slice(), out);
            }
            if let Some(f) = finally {
                collect_localset_ids_in_stmts(f.as_slice(), out);
            }
        },
        Stmt::Switch { discriminant, cases } => {
            collect_localset_ids_in_expr(discriminant, out);
            localset_ids_in_cases(cases, out);
        },
        Stmt::Labeled { body, .. } => {
            localset_ids_in_stmt(body, out);
        },
        Stmt::Other => {},
    }
    assert(out@ =~= old(out)@ + localset_ids_stmt(*s));
}

fn localset_ids_in_list(es: &Vec<Expr>, out: &mut HashSet<u32>)
    ensures
        final(out)@ == old(out)@ + localset_ids_list(es@),
    decreases es@,
{
    let ghost start = out@;
    let mut i: usize = 0;
    while i < es.len()
        invariant
            i <= es.len(),
            out@ == start + localset_ids_list(es@.take(i as int)),
        decreases es.len() - i,
    {
        assert(es@.take(i + 1).drop_last() =~= es@.take(i as int));
        collect_localset_ids_in_expr(&es[i], out);
        i = i + 1;
        assert(out@ =~= start + localset_ids_list(es@.take(i as int)));
    }
    assert(es@.take(es.len() as int) =~= es@);
}

/// Adds to `out` every local that `e` writes with `LocalSet`
/// (`localset_ids`); reads and `++`/`--` are not recorded.
pub fn collect_localset_ids_in_expr(e: &Expr, out: &mut HashSet<u32>)
    ensures
        final(out)@ == old(out)@ + localset_ids(*e),
    decreases e,
{
    match e {
        Expr::LocalSet(id, value) => {
            insert_id(out, *id);
            collect_localset_ids_in_expr(value, out);
        },
        Expr::Binary { left, right, .. } | Expr::Compare { left, right, .. } => {
            collect_localset_ids_in_expr(left, out);
            collect_localset_ids_in_expr(right, out);
        },
        Expr::Call { callee, args } => {
            collect_localset_ids_in_expr(callee, out);
            localset_ids_in_list(args, out);
        },
        Expr::Conditional { condition, then_expr, else_expr } => {
            collect_localset_ids_in_expr(condition, out);
            collect_localset_ids_in_expr(then_expr, out);
            collect_localset_ids_in_expr(else_expr, out);
        },
        Expr::Closure { body, .. } => {
            collect_localset_ids_in_stmts(body.as_slice(), out);
        },
        Expr::ArrayPush { value, .. } | Expr::SetAdd { value, .. } => {
            collect_localset_ids_in_expr(value, out);
        },
        Expr::ArraySplice { start, delete_count, items, .. } => {
            collect_localset_ids_in_expr(start, out);
            if let Some(d) = delete_count {
                collect_localset_ids_in_expr(d, out);
            }
            localset_ids_in_list(items, out);
        },
        Expr::Op { kind, args } => {
            if enters_ref_walk(kind) {
                localset_ids_in_list(args, out);
            }
        },
        _ => {},
    }
    assert(out@ =~= old(out)@ + localset_ids(*e));
}

/// Code in which the reference walker reaches every statement the
/// `LocalSet` walker reaches: no `try`, `switch` or labeled statement
/// where statements are walked (at top level or in closure bodies).
pub open spec fn ref_walk_complete(e: Expr) -> bool
    decreases e,
{
    match e {
        Expr::Closure { body, .. } => ref_walk_complete_stmts(body@),
        Expr::LocalSet(_, value) => ref_walk_complete(*value),
        Expr::Binary { left, right, .. } => ref_walk_complete(*left) && ref_walk_complete(*right),
        Expr::Compare { left, right, .. } => ref_walk_complete(*left) && ref_walk_complete(*right),
        Expr::Call { callee, args } => ref_walk_complete(*callee) && ref_walk_complete_list(args@),
        Expr::Conditional { condition, then_expr, else_expr } => ref_walk_complete(*condition)
            && ref_walk_complete(*then_expr) && ref_walk_complete(*else_expr),
        Expr::ArrayPush { value, .. } => ref_walk_complete(*value),
        Expr::SetAdd { value, .. } => ref_walk_complete(*value),
        Expr::ArraySplice { start, delete_count, items, .. } => ref_walk_complete(*start) && (match delete_count {
            Some(d) => ref_walk_complete(*d),
            None => true,
        }) && ref_walk_complete_list(items@),
        Expr::Op { kind, args } => !entered_by_ref_walk(kind) || ref_walk_complete_list(args@),
        _ => true,
    }
}

pub open spec fn ref_walk_complete_list(es: Seq<Expr>) -> bool
    decreases es,
{
    if es.len() == 0 {
        true
    } else {
        ref_walk_complete_list(es.drop_last()) && ref_walk_complete(es.last())
    }
}

pub open spec fn ref_walk_complete_stmt(s: Stmt) -> bool
    decreases s,
{
    match s {
        Stmt::Expr(e) => ref_walk_complete(e),
        Stmt::Throw(e) => ref_walk_complete(e),
        Stmt::Return(opt) => match opt {
            Some(e) => ref_walk_complete(e),
            None => true,
        },
        Stmt::Let { init, .. } => match init {
            Some(e) => ref_walk_complete(e),
            None => true,
        },
        Stmt::If { condition, then_branch, else_branch } => ref_walk_complete(condition)
            && ref_walk_complete_stmts(then_branch@) && match else_branch {
            Some(eb) => ref_walk_complete_stmts(eb@),
            None => true,
        },
        Stmt::While { condition, body } => ref_walk_complete(condition) && ref_walk_complete_stmts(body@),
        Stmt::DoWhile { body, condition } => ref_walk_complete_stmts(body@) && ref_walk_complete(condition),
        Stmt::For { init, condition, update, body } => (match init {
            Some(i) => ref_walk_complete_stmt(*i),
            None => true,
        }) && (match condition {
            Some(c) => ref_walk_complete(c),
            None => true,
        }) && (match update {
            Some(u) => ref_walk_complete(u),
            None => true,
        }) && ref_walk_complete_stmts(body@),
        Stmt::Try { .. } | Stmt::Switch { .. } | Stmt::Labeled { .. } => false,
        Stmt::Other => true,
    }
}

pub open spec fn ref_walk_complete_stmts(ss: Seq<Stmt>) -> bool
    decreases ss,
{
    if ss.len() == 0 {
        true
    } else {
        ref_walk_complete_stmts(ss.drop_last()) && ref_walk_complete_stmt(ss.last())
    }
}

/// The `LocalSet` walker mirrors the reference walker: every local an
/// expression writes is among the locals it refers to, wherever the two
/// walkers see the same statements.
pub proof fn lemma_localsets_are_refs(e: Expr)
    requires
        ref_walk_complete(e),
    ensures
        localset_ids(e).subset_of(ref_ids(e)),
    decreases e,
{
    match e {
        Expr::Closure { body, .. } => {
            lemma_localsets_are_refs_stmts(body@);
        },
        Expr::LocalSet(_, value) | Expr::ArrayPush { value, .. } | Expr::SetAdd { value, .. } => {
            lemma_localsets_are_refs(*value);
        },
        Expr::Binary { left, right, .. } | Expr::Compare { left, right, .. } => {
            lemma_localsets_are_refs(*left);
            lemma_localsets_are_refs(*right);
        },
        Expr::Call { callee, args } => {
            lemma_localsets_are_refs(*callee);
            lemma_localsets_are_refs_list(args@);
        },
        Expr::Conditional { condition, then_expr, else_expr } => {
            lemma_localsets_are_refs(*condition);
            lemma_localsets_are_refs(*then_expr);
            lemma_localsets_are_refs(*else_expr);
        },
        Expr::ArraySplice { start, delete_count, items, .. } => {
            lemma_localsets_are_refs(*start);
            match delete_count {
                Some(d) => {
                    lemma_localsets_are_refs(*d);
                },
                None => {},
            }
            lemma_localsets_are_refs_list(items@);
        },
        Expr::Op { kind, args } => {
            if entered_by_ref_walk(kind) {
                lemma_localsets_are_refs_list(args@);
            }
        },
        _ => {},
    }
}

pub proof fn lemma_localsets_are_refs_list(es: Seq<Expr>)
    requires
        ref_walk_complete_list(es),
    ensures
        localset_ids_list(es).subset_of(ref_ids_list(es)),
    decreases es,
{
    if es.len() > 0 {
        lemma_localsets_are_refs_list(es.drop_last());
        lemma_localsets_are_refs(es.last());
    }
}

pub proof fn lemma_localsets_are_refs_stmt(s: Stmt)
    requires
        ref_walk_complete_stmt(s),
    ensures
        localset_ids_stmt(s).subset_of(ref_ids_stmt(s)),
    decreases s,
{
    match s {
        Stmt::Expr(e) | Stmt::Throw(e) | Stmt::Return(Some(e)) | Stmt::Let { init: Some(e), .. } => {
            lemma_localsets_are_refs(e);
        },
        Stmt::If { condition, then_branch, else_branch } => {
            lemma_localsets_are_refs(condition);
            lemma_localsets_are_refs_stmts(then_branch@);
            match else_branch {
                Some(eb) => {
                    lemma_localsets_are_refs_stmts(eb@);
                },
                None => {},
            }
        },
        Stmt::While { condition, body } | Stmt::DoWhile { body, condition } => {
            lemma_localsets_are_refs(condition);
            lemma_localsets_are_refs_stmts(body@);
        },
        Stmt::For { init, condition, update, body } => {
            match init {
                Some(i) => {
                    lemma_localsets_are_refs_stmt(*i);
                },
                None => {},
            }
            match condition {
                Some(c) => {
                    lemma_localsets_are_refs(c);
                },
                None => {},
            }
            match update {
                Some(u) => {
                    lemma_localsets_are_refs(u);
                },
                None => {},
            }
            lemma_localsets_are_refs_stmts(body@);
        },
        _ => {},
    }
}

pub proof fn lemma_localsets_are_refs_stmts(ss: Seq<Stmt>)
    requires
        ref_walk_complete_stmts(ss),
    ensures
        localset_ids_stmts(ss).subset_of(ref_ids_stmts(ss)),
    decreases ss,
{
    if ss.len() > 0 {
        lemma_localsets_are_refs_stmts(ss.drop_last());
        lemma_localsets_are_refs_stmt(ss.last());
    }
}

/// Where a closure walk stands: the function ids seen so far, and the
/// closures found so far, each with its function id, in the order the
/// walk met them.
pub struct ClosureScan {
    pub seen: Set<u32>,
    pub found: Seq<(u32, Expr)>,
}

/// A closure walk over `e`: each closure literal not seen before is
/// recorded (id and expression) when the walk reaches it, before the
/// closures in its body; sub-expressions are walked left to right.
pub open spec fn scan_expr(e: Expr, st: ClosureScan) -> ClosureScan
    decreases e,
{
    match e {
        Expr::Closure { func_id, body, .. } => {
            let st1 = ClosureScan {
                seen: st.seen.insert(func_id),
                found: if st.seen.contains(func_id) {
                    st.found
                } else {
                    st.found.push((func_id, e))
                },
            };
            scan_stmts(body@, st1)
        },
        Expr::Binary { left, right, .. } => scan_expr(*right, scan_expr(*left, st)),
        Expr::Compare { left, right, .. } => scan_expr(*right, scan_expr(*left, st)),
        Expr::Call { callee, args } => scan_list(args@, scan_expr(*callee, st)),
        Expr::Conditional { condition, then_expr, else_expr } => scan_expr(
            *else_expr,
            scan_expr(*then_expr, scan_expr(*condition, st)),
        ),
        Expr::LocalSet(_, value) => scan_expr(*value, st),
        Expr::ArrayPush { value, .. } => scan_expr(*value, st),
        Expr::SetAdd { value, .. } => scan_expr(*value, st),
        Expr::ArraySplice { start, delete_count, items, .. } => {
            let st1 = scan_expr(*start, st);
            let st2 = match delete_count {
                Some(d) => scan_expr(*d, st1),
                None => st1,
            };
            scan_list(items@, st2)
        },
        Expr::Op { kind, args } => if entered_by_closure_walk(kind) {
            scan_list(args@, st)
        } else {
            st
        },
        _ => st,
    }
}

pub open spec fn scan_list(es: Seq<Expr>, st: ClosureScan) -> ClosureScan
    decreases es,
{
    if es.len() == 0 {
        st
    } else {
        scan_expr(es.last(), scan_list(es.drop_last(), st))
    }
}

pub open spec fn scan_stmt(s: Stmt, st: ClosureScan) -> ClosureScan
    decreases s,
{
    match s {
        Stmt::Expr(e) => scan_expr(e, st),
        Stmt::Throw(e) => scan_expr(e, st),
        Stmt::Return(opt) => match opt {
            Some(e) => scan_expr(e, st),
            None => st,
        },
        Stmt::Let { init, .. } => match init {
            Some(e) => scan_expr(e, st),
            None => st,
        },
        Stmt::If { condition, then_branch, else_branch } => {
            let st1 = scan_stmts(then_branch@, scan_expr(condition, st));
            match else_branch {
                Some(eb) => scan_stmts(eb@, st1),
                None => st1,
            }
        },
        Stmt::While { condition, body } => scan_stmts(body@, scan_expr(condition, st)),
        Stmt::DoWhile { body, condition } => scan_expr(condition, scan_stmts(body@, st)),
        Stmt::For { init, condition, update, body } => {
            let st1 = match init {
                Some(i) => scan_stmt(*i, st),
                None => st,
            };
            let st2 = match condition {
                Some(c) => scan_expr(c, st1),
                None => st1,
            };
            let st3 = match update {
                Some(u) => scan_expr(u, st2),
                None => st2,
            };
            scan_stmts(body@, st3)
        },
        Stmt::Switch { discriminant, cases } => scan_cases(cases@, scan_expr(discriminant, st)),
        Stmt::Try { body, catch, finally } => {
            let st1 = scan_stmts(body@, st);
            let st2 = match catch {
                Some(c) => scan_stmts(c.body@, st1),
                None => st1,
            };
            match finally {
                Some(f) => scan_stmts(f@, st2),
                None => st2,
            }
        },
        Stmt::Labeled { body, .. } => scan_stmt(*body, st),
        Stmt::Other => st,
    }
}

pub open spec fn scan_stmts(ss: Seq<Stmt>, st: ClosureScan) -> ClosureScan
    decreases ss,
{
    if ss.len() == 0 {
        st
    } else {
        scan_stmt(ss.last(), scan_stmts(ss.drop_last(), st))
    }
}

/// Each case's test, then its body, case by case.
pub open spec fn scan_cases(cs: Seq<SwitchCase>, st: ClosureScan) -> ClosureScan
    decreases cs,
{
    if cs.len() == 0 {
        st
    } else {
        let st1 = scan_cases(cs.drop_last(), st);
        let st2 = match cs.last().test {
            Some(t) => scan_expr(t, st1),
            None => st1,
        };
        scan_stmts(cs.last().body@, st2)
    }
}

/// A sound walk state: every recorded closure's id is in `seen`, and no
/// id is recorded twice.
pub open spec fn scan_ok(st: ClosureScan) -> bool {
    &&& forall|i: int| 0 <= i < st.found.len() ==> st.seen.contains(#[trigger] st.found[i].0)
    &&& forall|i: int, j: int|
        0 <= i < j < st.found.len() ==> #[trigger] st.found[i].0 != #[trigger] st.found[j].0
}

/// A walk only adds: ids stay seen and recorded closures stay recorded,
/// in place.
pub open spec fn scan_grows(a: ClosureScan, b: ClosureScan) -> bool {
    a.seen.subset_of(b.seen) && a.found.is_prefix_of(b.found)
}

proof fn lemma_grows_trans(a: ClosureScan, b: ClosureScan, c: ClosureScan)
    requires
        scan_grows(a, b),
        scan_grows(b, c),
    ensures
        scan_grows(a, c),
{
    assert(a.found.is_prefix_of(c.found)) by {
        assert forall|i: int| 0 <= i < a.found.len() implies a.found[i] == c.found[i] by {
            assert(a.found[i] == b.found[i]);
        }
    }
}

/// Each closure is recorded at most once: starting from a sound state
/// (for instance an empty `seen` and `out`), a walk over an expression
/// keeps every recorded id distinct and in `seen`, and only adds.
pub proof fn lemma_scan_expr_once(e: Expr, st: ClosureScan)
    requires
        scan_ok(st),
    ensures
        scan_ok(scan_expr(e, st)),
        scan_grows(st, scan_expr(e, st)),
    decreases e,
{
    match e {
        Expr::Closure { func_id, body, .. } => {
            let st1 = ClosureScan {
                seen: st.seen.insert(func_id),
                found: if st.seen.contains(func_id) {
                    st.found
                } else {
                    st.found.push((func_id, e))
                },
            };
            assert(scan_ok(st1)) by {
                if !st.seen.contains(func_id) {
                    assert forall|i: int, j: int| 0 <= i < j < st1.found.len() implies #[trigger] st1.found[i].0
                        != #[trigger] st1.found[j].0 by {
                        if j == st.found.len() {
                            assert(st.seen.contains(st.found[i].0));
                        } else {
                            assert(st1.found[i] == st.found[i] && st1.found[j] == st.found[j]);
                        }
                    }
                    assert forall|i: int| 0 <= i < st1.found.len() implies st1.seen.contains(
                        #[trigger] st1.found[i].0,
                    ) by {
                        if i < st.found.len() {
                            assert(st1.found[i] == st.found[i]);
                        }
                    }
                }
            }
            assert(scan_grows(st, st1));
            lemma_scan_stmts_once(body@, st1);
            lemma_grows_trans(st, st1, scan_stmts(body@, st1));
        },
        Expr::Binary { left, right, .. } | Expr::Compare { left, right, .. } => {
            lemma_scan_expr_once(*left, st);
            let st1 = scan_expr(*left, st);
            lemma_scan_expr_once(*right, st1);
            lemma_grows_trans(st, st1, scan_expr(*right, st1));
        },
        Expr::Call { callee, args } => {
            lemma_scan_expr_once(*callee, st);
            let st1 = scan_expr(*callee, st);
            lemma_scan_list_once(args@, st1);
            lemma_grows_trans(st, st1, scan_list(args@, st1));
        },
        Expr::Conditional { condition, then_expr, else_expr } => {
            lemma_scan_expr_once(*condition, st);
            let st1 = scan_expr(*condition, st);
            lemma_scan_expr_once(*then_expr, st1);
            let st2 = scan_expr(*then_expr, st1);
            lemma_scan_expr_once(*else_expr, st2);
            lemma_grows_trans(st, st1, st2);
            lemma_grows_trans(st, st2, scan_expr(*else_expr, st2));
        },
        Expr::LocalSet(_, value) | Expr::ArrayPush { value, .. } | Expr::SetAdd { value, .. } => {
            lemma_scan_expr_once(*value, st);
        },
        Expr::ArraySplice { start, delete_count, items, .. } => {
            lemma_scan_expr_once(*start, st);
            let st1 = scan_expr(*start, st);
            let st2 = match delete_count {
                Some(d) => scan_expr(*d, st1),
                None => st1,
            };
            match delete_count {
                Some(d) => {
                    lemma_scan_expr_once(*d, st1);
                },
                None => {},
            }
            lemma_grows_trans(st, st1, st2);
            lemma_scan_list_once(items@, st2);
            lemma_grows_trans(st, st2, scan_list(items@, st2));
        },
        Expr::Op { kind, args } => {
            if entered_by_closure_walk(kind) {
                lemma_scan_list_once(args@, st);
            }
        },
        _ => {},
    }
}

pub proof fn lemma_scan_list_once(es: Seq<Expr>, st: ClosureScan)
    requires
        scan_ok(st),
    ensures
        scan_ok(scan_list(es, st)),
        scan_grows(st, scan_list(es, st)),
    decreases es,
{
    if es.len() > 0 {
        lemma_scan_list_once(es.drop_last(), st);
        let st1 = scan_list(es.drop_last(), st);
        lemma_scan_expr_once(es.last(), st1);
        lemma_grows_trans(st, st1, scan_expr(es.last(), st1));
    }
}

pub proof fn lemma_scan_stmt_once(s: Stmt, st: ClosureScan)
    requires
        scan_ok(st),
    ensures
        scan_ok(scan_stmt(s, st)),
        scan_grows(st, scan_stmt(s, st)),
    decreases s,
{
    match s {
        Stmt::Expr(e) | Stmt::Throw(e) | Stmt::Return(Some(e)) | Stmt::Let { init: Some(e), .. } => {
            lemma_scan_expr_once(e, st);
        },
        Stmt::If { condition, then_branch, else_branch } => {
            lemma_scan_expr_once(condition, st);
            let st1 = scan_expr(condition, st);
            lemma_scan_stmts_once(then_branch@, st1);
            let st2 = scan_stmts(then_branch@, st1);
            lemma_grows_trans(st, st1, st2);
            match else_branch {
                Some(eb) => {
                    lemma_scan_stmts_once(eb@, st2);
                    lemma_grows_trans(st, st2, scan_stmts(eb@, st2));
                },
                None => {},
            }
        },
        Stmt::While { condition, body } => {
            lemma_scan_expr_once(condition, st);
            let st1 = scan_expr(condition, st);
            lemma_scan_stmts_once(body@, st1);
            lemma_grows_trans(st, st1, scan_stmts(body@, st1));
        },
        Stmt::DoWhile { body, condition } => {
            lemma_scan_stmts_once(body@, st);
            let st1 = scan_stmts(body@, st);
            lemma_scan_expr_once(condition, st1);
            lemma_grows_trans(st, st1, scan_expr(condition, st1));
        },
        Stmt::For { init, condition, update, body } => {
            let st1 = match init {
                Some(i) => scan_stmt(*i, st),
                None => st,
            };
            match init {
                Some(i) => {
                    lemma_scan_stmt_once(*i, st);
                },
                None => {},
            }
            let st2 = match condition {
                Some(c) => scan_expr(c, st1),
                None => st1,
            };
            match condition {
                Some(c) => {
                    lemma_scan_expr_once(c, st1);
                },
                None => {},
            }
            let st3 = match update {
                Some(u) => scan_expr(u, st2),
                None => st2,
            };
            match update {
                Some(u) => {
                    lemma_scan_expr_once(u, st2);
                },
                None => {},
            }
            lemma_scan_stmts_once(body@, st3);
            lemma_grows_trans(st, st1, st2);
            lemma_grows_trans(st, st2, st3);
            lemma_grows_trans(st, st3, scan_stmts(body@, st3));
        },
        Stmt::Switch { discriminant, cases } => {
            lemma_scan_expr_once(discriminant, st);
            let st1 = scan_expr(discriminant, st);
            lemma_scan_cases_once(cases@, st1);
            lemma_grows_trans(st, st1, scan_cases(cases@, st1));
        },
        Stmt::Try { body, catch, finally } => {
            lemma_scan_stmts_once(body@, st);
            let st1 = scan_stmts(body@, st);
            let st2 = match catch {
                Some(c) => scan_stmts(c.body@, st1),
                None => st1,
            };
            match catch {
                Some(c) => {
                    lemma_scan_stmts_once(c.body@, st1);
                },
                None => {},
            }
            lemma_grows_trans(st, st1, st2);
            match finally {
                Some(f) => {
                    lemma_scan_stmts_once(f@, st2);
                    lemma_grows_trans(st, st2, scan_stmts(f@, st2));
                },
                None => {},
            }
        },
        Stmt::Labeled { body, .. } => {
            lemma_scan_stmt_once(*body, st);
        },
        _ => {},
    }
}

pub proof fn lemma_scan_stmts_once(ss: Seq<Stmt>, st: ClosureScan)
    requires
        scan_ok(st),
    ensures
        scan_ok(scan_stmts(ss, st)),
        scan_grows(st, scan_stmts(ss, st)),
    decreases ss,
{
    if ss.len() > 0 {
        lemma_scan_stmts_once(ss.drop_last(), st);
        let st1 = scan_stmts(ss.drop_last(), st);
        lemma_scan_stmt_once(ss.last(), st1);
        lemma_grows_trans(st, st1, scan_stmt(ss.last(), st1));
    }
}

pub proof fn lemma_scan_cases_once(cs: Seq<SwitchCase>, st: ClosureScan)
    requires
        scan_ok(st),
    ensures
        scan_ok(scan_cases(cs, st)),
        scan_grows(st, scan_cases(cs, st)),
    decreases cs,
{
    if cs.len() > 0 {
        lemma_scan_cases_once(cs.drop_last(), st);
        let st1 = scan_cases(cs.drop_last(), st);
        let st2 = match cs.last().test {
            Some(t) => scan_expr(t, st1),
            None => st1,
        };
        match cs.last().test {
            Some(t) => {
                lemma_scan_expr_once(t, st1);
            },
            None => {},
        }
        lemma_scan_stmts_once(cs.last().body@, st2);
        lemma_grows_trans(st, st1, st2);
        lemma_grows_trans(st, st2, scan_stmts(cs.last().body@, st2));
    }
}

/// The closures recorded in `out`, as values.
pub open spec fn found_view<'a>(out: Seq<(u32, &'a Expr)>) -> Seq<(u32, Expr)> {
    out.map_values(|p: (u32, &'a Expr)| (p.0, *p.1))
}

/// The walk's state as held in `seen` and `out`.
pub open spec fn scan_state<'a>(seen: Set<u32>, out: Seq<(u32, &'a Expr)>) -> ClosureScan {
    ClosureScan { seen, found: found_view(out) }
}

/// Walk a statement list for closure literals, recording each function id
/// once (in `seen`) and each newly seen closure, by reference, in `out`.
pub fn collect_closures_in_stmts<'a>(stmts: &'a [Stmt], seen: &mut HashSet<u32>, out: &mut Vec<(u32, &'a Expr)>)
    ensures
        scan_state(final(seen)@, final(out)@) == scan_stmts(stmts@, scan_state(old(seen)@, old(out)@)),
    decreases stmts@,
{
    let ghost start = scan_state(seen@, out@);
    let mut i: usize = 0;
    while i < stmts.len()
        invariant
            i <= stmts.len(),
            scan_state(seen@, out@) == scan_stmts(stmts@.take(i as int), start),
        decreases stmts.len() - i,
    {
        assert(stmts@.take(i + 1).drop_last() =~= stmts@.take(i as int));
        closures_in_stmt(&stmts[i], seen, out);
        i = i + 1;
    }
    assert(stmts@.take(stmts.len() as int) =~= stmts@);
}

fn closures_in_cases<'a>(cases: &'a Vec<SwitchCase>, seen: &mut HashSet<u32>, out: &mut Vec<(u32, &'a Expr)>)
    ensures
        scan_state(final(seen)@, final(out)@) == scan_cases(cases@, scan_state(old(seen)@, old(out)@)),
    decreases cases@,
{
    let ghost start = scan_state(seen@, out@);
    let mut i: usize = 0;
    while i < cases.len()
        invariant
            i <= cases.len(),
            scan_state(seen@, out@) == scan_cases(cases@.take(i as int), start),
        decreases cases.len() - i,
    {
        assert(cases@.take(i + 1).drop_last() =~= cases@.take(i as int));
        let c = &cases[i];
        if let Some(t) = &c.test {
            collect_closures_in_expr(t, seen, out);
        }
        collect_closures_in_stmts(c.body.as_slice(), seen, out);
        i = i + 1;
    }
    assert(cases@.take(cases.len() as int) =~= cases@);
}

fn closures_in_stmt<'a>(s: &'a Stmt, seen: &mut HashSet<u32>, out: &mut Vec<(u32, &'a Expr)>)
    ensures
        scan_state(final(seen)@, final(out)@) == scan_stmt(*s, scan_state(old(seen)@, old(out)@)),
    decreases s,
{
    match s {
        Stmt::Expr(e) | Stmt::Throw(e) => collect_closures_in_expr(e, seen, out),
        Stmt::Return(opt) => {
            if let Some(e) = opt {
                collect_closures_in_expr(e, seen, out);
            }
        },
        Stmt::Let { init, .. } => {
            if let Some(e) = init {
                collect_closures_in_expr(e, seen, out);
            }
        },
        Stmt::If { condition, then_branch, else_branch } => {
            collect_closures_in_expr(condition, seen, out);
            collect_closures_in_stmts(then_branch.as_slice(), seen, out);
            if let Some(eb) = else_branch {
                collect_closures_in_stmts(eb.as_slice(), seen, out);
            }
        },
        Stmt::While { condition, body } => {
            collect_closures_in_expr(condition, seen, out);
            collect_closures_in_stmts(body.as_slice(), seen, out);
        },
        Stmt::DoWhile { body, condition } => {
            collect_closures_in_stmts(body.as_slice(), seen, out);
            collect_closures_in_expr(condition, seen, out);
        },
        Stmt::For { init, condition, update, body } => {
            if let Some(init_stmt) = init {
                closures_in_stmt(init_stmt, seen, out);
            }
            if let Some(cond) = condition {
                collect_closures_in_expr(cond, seen, out);
            }
            if let Some(upd) = update {
                collect_closures_in_expr(upd, seen, out);
            }
            collect_closures_in_stmts(body.as_slice(), seen, out);
        },
        Stmt::Switch { discriminant, cases } => {
            collect_closures_in_expr(discriminant, seen, out);
            closures_in_cases(cases, seen, out);
        },
        Stmt::Try { body, catch, finally } => {
            collect_closures_in_stmts(body.as_slice(), seen, out);
            if let Some(c) = catch {
                collect_closures_in_stmts(c.body.as_slice(), seen, out);
            }
            if let Some(f) = finally {
                collect_closures_in_stmts(f.as_slice(), seen, out);
            }
        },
        Stmt::Labeled { body, .. } => {
            closures_in_stmt(body, seen, out);
        },
        Stmt::Other => {},
    }
}

fn closures_in_list<'a>(es: &'a Vec<Expr>, seen: &mut HashSet<u32>, out: &mut Vec<(u32, &'a Expr)>)
    ensures
        scan_state(final(seen)@, final(out)@) == scan_list(es@, scan_state(old(seen)@, old(out)@)),
    decreases es@,
{
    let ghost start = scan_state(seen@, out@);
    let mut i: usize = 0;
    while i < es.len()
        invariant
            i <= es.len(),
            scan_state(seen@, out@) == scan_list(es@.take(i as int), start),
        decreases es.len() - i,
    {
        assert(es@.take(i + 1).drop_last() =~= es@.take(i as int));
        collect_closures_in_expr(&es[i], seen, out);
        i = i + 1;
    }
    assert(es@.take(es.len() as int) =~= es@);
}

/// Walk an expression for closure literals (`scan_expr`): a closure whose
/// function id is not yet in `seen` is added to `seen` and recorded in
/// `out`; its body is walked either way, so nested closures are found.
pub fn collect_closures_in_expr<'a>(e: &'a Expr, seen: &mut HashSet<u32>, out: &mut Vec<(u32, &'a Expr)>)
    ensures
        scan_state(final(seen)@, final(out)@) == scan_expr(*e, scan_state(old(seen)@, old(out)@)),
    decreases e,
{
    match e {
        Expr::Closure { func_id, body, .. } => {
            let ghost before = out@;
            if seen.insert(*func_id) {
                out.push((*func_id, e));
                assert(found_view(out@) =~= found_view(before).push((*func_id, *e)));
            }
            collect_closures_in_stmts(body.as_slice(), seen, out);
        },
        Expr::Binary { left, right, .. } | Expr::Compare { left, right, .. } => {
            collect_closures_in_expr(left, seen, out);
            collect_closures_in_expr(right, seen, out);
        },
        Expr::Call { callee, args } => {
            collect_closures_in_expr(callee, seen, out);
            closures_in_list(args, seen, out);
        },
        Expr::Conditional { condition, then_expr, else_expr } => {
            collect_closures_in_expr(condition, seen, out);
            collect_closures_in_expr(then_expr, seen, out);
            collect_closures_in_expr(else_expr, seen, out);
        },
        Expr::LocalSet(_, value) | Expr::ArrayPush { value, .. } | Expr::SetAdd { value, .. } => {
            collect_closures_in_expr(value, seen, out);
        },
        Expr::ArraySplice { start, delete_count, items, .. } => {
            collect_closures_in_expr(start, seen, out);
            if let Some(d) = delete_count {
                collect_closures_in_expr(d, seen, out);
            }
            closures_in_list(items, seen, out);
        },
        Expr::Op { kind, args } => {
            if enters_closure_walk(kind) {
                closures_in_list(args, seen, out);
            }
        },
        _ => {},
    }
}

/// Locals declared by `let` in a statement, looking into `if` branches,
/// `for` initializers and bodies, and `while` / `do`-`while` bodies.
pub open spec fn let_ids_stmt(s: Stmt) -> Set<u32>
    decreases s,
{
    match s {
        Stmt::Let { id, .. } => set![id],
        Stmt::If { then_branch, else_branch, .. } => let_ids_stmts(then_branch@) + (match else_branch {
            Some(eb) => let_ids_stmts(eb@),
            None => Set::empty(),
        }),
        Stmt::For { init, body, .. } => (match init {
            Some(i) => let_ids_stmt(*i),
            None => Set::empty(),
        }) + let_ids_stmts(body@),
        Stmt::While { body, .. } => let_ids_stmts(body@),
        Stmt::DoWhile { body, .. } => let_ids_stmts(body@),
        _ => Set::empty(),
    }
}

pub open spec fn let_ids_stmts(ss: Seq<Stmt>) -> Set<u32>
    decreases ss,
{
    if ss.len() == 0 {
        Set::empty()
    } else {
        let_ids_stmts(ss.drop_last()) + let_ids_stmt(ss.last())
    }
}

/// Walk a sequence of statements and collect all local ids defined by
/// `let` (the function's own locals, as opposed to module-level ones).
pub fn collect_let_ids(stmts: &[Stmt], out: &mut HashSet<u32>)
    ensures
        final(out)@ == old(out)@ + let_ids_stmts(stmts@),
    decreases stmts@,
{
    let ghost start = out@;
    let mut i: usize = 0;
    while i < stmts.len()
        invariant
            i <= stmts.len(),
            out@ == start + let_ids_stmts(stmts@.take(i as int)),
        decreases stmts.len() - i,
    {
        assert(stmts@.take(i + 1).drop_last() =~= stmts@.take(i as int));
        let_ids_in_stmt(&stmts[i], out);
        i = i + 1;
        assert(out@ =~= start + let_ids_stmts(stmts@.take(i as int)));
    }
    assert(stmts@.take(stmts.len() as int) =~= stmts@);
}

fn let_ids_in_stmt(s: &Stmt, out: &mut HashSet<u32>)
    ensures
        final(out)@ == old(out)@ + let_ids_stmt(*s),
    decreases s,
{
    match s {
        Stmt::Let { id, .. } => {
            insert_id(out, *id);
        },
        Stmt::If { then_branch, else_branch, .. } => {
            collect_let_ids(then_branch.as_slice(), out);
            if let Some(eb) = else_branch {
                collect_let_ids(eb.as_slice(), out);
            }
        },
        Stmt::For { init, body, .. } => {
            if let Some(init_stmt) = init {
                let_ids_in_stmt(init_stmt, out);
            }
            collect_let_ids(body.as_slice(), out);
        },
        Stmt::While { body, .. } | Stmt::DoWhile { body, .. } => {
            collect_let_ids(body.as_slice(), out);
        },
        _ => {},
    }
    assert(out@ =~= old(out)@ + let_ids_stmt(*s));
}

/// Locals declared with an integer-literal initializer, in a statement and
/// the blocks nested in it (closure bodies are not entered).
pub open spec fn integer_let_ids_stmt(s: Stmt) -> Set<u32>
    decreases s,
{
    match s {
        Stmt::Let { id, init: Some(Expr::Integer(_)) } => set![id],
        Stmt::If { then_branch, else_branch, .. } => integer_let_ids_stmts(then_branch@) + (match else_branch {
            Some(eb) => integer_let_ids_stmts(eb@),
            None => Set::empty(),
        }),
        Stmt::For { init, body, .. } => (match init {
            Some(i) => integer_let_ids_stmt(*i),
            None => Set::empty(),
        }) + integer_let_ids_stmts(body@),
        Stmt::While { body, .. } => integer_let_ids_stmts(body@),
        Stmt::DoWhile { body, .. } => integer_let_ids_stmts(body@),
        Stmt::Try { body, catch, finally } => integer_let_ids_stmts(body@) + (match catch {
            Some(c) => integer_let_ids_stmts(c.body@),
            None => Set::empty(),
        }) + (match finally {
            Some(f) => integer_let_ids_stmts(f@),
            None => Set::empty(),
        }),
        Stmt::Switch { cases, .. } => integer_let_ids_cases(cases@),
        Stmt::Labeled { body, .. } => integer_let_ids_stmt(*body),
        _ => Set::empty(),
    }
}

pub open spec fn integer_let_ids_stmts(ss: Seq<Stmt>) -> Set<u32>
    decreases ss,
{
    if ss.len() == 0 {
        Set::empty()
    } else {
        integer_let_ids_stmts(ss.drop_last()) + integer_let_ids_stmt(ss.last())
    }
}

pub open spec fn integer_let_ids_cases(cs: Seq<SwitchCase>) -> Set<u32>
    decreases cs,
{
    if cs.len() == 0 {
        Set::empty()
    } else {
        integer_let_ids_cases(cs.drop_last()) + integer_let_ids_stmts(cs.last().body@)
    }
}

/// The locals that provably hold integers for the whole function: those
/// declared with an integer-literal initializer and never the target of a
/// `LocalSet` anywhere in the body (closures included); `++`/`--` keep a
/// local integral and do not disqualify it.
pub open spec fn integer_locals(ss: Seq<Stmt>) -> Set<u32> {
    integer_let_ids_stmts(ss) - localset_ids_stmts(ss)
}

fn integer_let_ids_in_stmts(stmts: &[Stmt], out: &mut Vec<u32>)
    ensures
        id_set(final(out)@) == id_set(old(out)@) + integer_let_ids_stmts(stmts@),
    decreases stmts@,
{
    let ghost start = id_set(out@);
    let mut i: usize = 0;
    while i < stmts.len()
        invariant
            i <= stmts.len(),
            id_set(out@) == start + integer_let_ids_stmts(stmts@.take(i as int)),
        decreases stmts.len() - i,
    {
        assert(stmts@.take(i + 1).drop_last() =~= stmts@.take(i as int));
        integer_let_ids_in_stmt(&stmts[i], out);
        i = i + 1;
        assert(id_set(out@) =~= start + integer_let_ids_stmts(stmts@.take(i as int)));
    }
    assert(stmts@.take(stmts.len() as int) =~= stmts@);
}

fn integer_let_ids_in_stmt(s: &Stmt, out: &mut Vec<u32>)
    ensures
        id_set(final(out)@) == id_set(old(out)@) + integer_let_ids_stmt(*s),
    decreases s,
{
    match s {
        Stmt::Let { id, init: Some(Expr::Integer(_)) } => {
            let ghost before = out@;
            out.push(*id);
            assert(out@.drop_last() =~= before);
        },
        Stmt::If { then_branch, else_branch, .. } => {
            integer_let_ids_in_stmts(then_branch.as_slice(), out);
            if let Some(eb) = else_branch {
                integer_let_ids_in_stmts(eb.as_slice(), out);
            }
        },
        Stmt::For { init, body, .. } => {
            if let Some(init_stmt) = init {
                integer_let_ids_in_stmt(init_stmt, out);
            }
            integer_let_ids_in_stmts(body.as_slice(), out);
        },
        Stmt::While { body, .. } | Stmt::DoWhile { body, .. } => {
            integer_let_ids_in_stmts(body.as_slice(), out);
        },
        Stmt::Try { body, catch, finally } => {
            integer_let_ids_in_stmts(body.as_slice(), out);
            if let Some(c) = catch {
                integer_let_ids_in_stmts(c.body.as_slice(), out);
            }
            if let Some(f) = finally {
                integer_let_ids_in_stmts(f.as_slice(), out);
            }
        },
        Stmt::Switch { cases, .. } => {
            integer_let_ids_in_cases(cases, out);
        },
        Stmt::Labeled { body, .. } => {
            integer_let_ids_in_stmt(body, out);
        },
        _ => {},
    }
    assert(id_set(out@) =~= id_set(old(out)@) + integer_let_ids_stmt(*s));
}

fn integer_let_ids_in_cases(cases: &Vec<SwitchCase>, out: &mut Vec<u32>)
    ensures
        id_set(final(out)@) == id_set(old(out)@) + integer_let_ids_cases(cases@),
    decreases cases@,
{
    let ghost start = id_set(out@);
    let mut i: usize = 0;
    while i < cases.len()
        invariant
            i <= cases.len(),
            id_set(out@) == start + integer_let_ids_cases(cases@.take(i as int)),
        decreases cases.len() - i,
    {
        assert(cases@.take(i + 1).drop_last() =~= cases@.take(i as int));
        integer_let_ids_in_stmts(cases[i].body.as_slice(), out);
        i = i + 1;
        assert(id_set(out@) =~= start + integer_let_ids_cases(cases@.take(i as int)));
    }
    assert(cases@.take(cases.len() as int) =~= cases@);
}

/// Locals that keep an integer value for the whole function
/// (`integer_locals`).
pub fn collect_integer_locals(stmts: &[Stmt]) -> (r: HashSet<u32>)
    ensures
        r@ == integer_locals(stmts@),
{
    let mut candidates: Vec<u32> = Vec::new();
    integer_let_ids_in_stmts(stmts, &mut candidates);
    assert(id_set(candidates@) =~= integer_let_ids_stmts(stmts@));
    let mut ever_localset: HashSet<u32> = HashSet::new();
    collect_localset_ids_in_stmts(stmts, &mut ever_localset);
    let ghost written = ever_localset@;
    let mut r: HashSet<u32> = HashSet::new();
    let mut i: usize = 0;
    while i < candidates.len()
        invariant
            i <= candidates.len(),
            ever_localset@ == written,
            r@ == id_set(candidates@.take(i as int)) - written,
        decreases candidates.len() - i,
    {
        assert(candidates@.take(i + 1).drop_last() =~= candidates@.take(i as int));
        let id = candidates[i];
        if !ever_localset.contains(&id) {
            insert_id(&mut r, id);
        }
        i = i + 1;
        assert(r@ =~= id_set(candidates@.take(i as int)) - written);
    }
    assert(candidates@.take(candidates.len() as int) =~= candidates@);
    assert(ever_localset@ =~= localset_ids_stmts(stmts@));
    r
}

/// Every id of a list is in its set.
pub proof fn lemma_id_set_elems(ids: Seq<u32>)
    ensures
        forall|i: int| 0 <= i < ids.len() ==> id_set(ids).contains(#[trigger] ids[i]),
    decreases ids.len(),
{
    if ids.len() > 0 {
        lemma_id_set_elems(ids.drop_last());
        assert forall|i: int| 0 <= i < ids.len() implies id_set(ids).contains(#[trigger] ids[i]) by {
            if i + 1 < ids.len() {
                assert(ids.drop_last()[i] == ids[i]);
            }
        }
    }
}

/// Each element's part is included in the whole list's.
pub proof fn lemma_ref_ids_list_elems(es: Seq<Expr>)
    ensures
        forall|i: int| 0 <= i < es.len() ==> ref_ids(#[trigger] es[i]).subset_of(ref_ids_list(es)),
    decreases es.len(),
{
    if es.len() > 0 {
        lemma_ref_ids_list_elems(es.drop_last());
        assert forall|i: int| 0 <= i < es.len() implies ref_ids(#[trigger] es[i]).subset_of(ref_ids_list(es)) by {
            if i + 1 < es.len() {
                assert(es.drop_last()[i] == es[i]);
            }
        }
    }
}

/// Each element's part is included in the whole list's.
pub proof fn lemma_ref_ids_stmts_elems(es: Seq<Stmt>)
    ensures
        forall|i: int| 0 <= i < es.len() ==> ref_ids_stmt(#[trigger] es[i]).subset_of(ref_ids_stmts(es)),
    decreases es.len(),
{
    if es.len() > 0 {
        lemma_ref_ids_stmts_elems(es.drop_last());
        assert forall|i: int| 0 <= i < es.len() implies ref_ids_stmt(#[trigger] es[i]).subset_of(ref_ids_stmts(es)) by {
            if i + 1 < es.len() {
                assert(es.drop_last()[i] == es[i]);
            }
        }
    }
}

/// Completeness of `ref_ids`: every local an expression reads, writes,
/// updates or mutates in place, every explicit capture of a closure, and
/// everything the walker finds in the sub-expressions and closure bodies
/// it visits is in the result.
pub proof fn lemma_ref_ids_complete(e: Expr)
    ensures
        e matches Expr::LocalGet(id) ==> (ref_ids(e).contains(id)),
        e matches Expr::Update { id } ==> (ref_ids(e).contains(id)),
        e matches Expr::LocalSet(id, value) ==> (ref_ids(e).contains(id)
            && ref_ids(*value).subset_of(ref_ids(e))),
        e matches Expr::Binary { left, right, .. } ==> (ref_ids(*left).subset_of(ref_ids(e))
            && ref_ids(*right).subset_of(ref_ids(e))),
        e matches Expr::Compare { left, right, .. } ==> (ref_ids(*left).subset_of(ref_ids(e))
            && ref_ids(*right).subset_of(ref_ids(e))),
        e matches Expr::Call { callee, args } ==> (ref_ids(*callee).subset_of(ref_ids(e))
            && (forall|i: int| 0 <= i < args@.len() ==> ref_ids(#[trigger] args@[i]).subset_of(ref_ids(e)))),
        e matches Expr::Conditional { condition, then_expr, else_expr } ==> (ref_ids(*condition).subset_of(ref_ids(e))
            && ref_ids(*then_expr).subset_of(ref_ids(e))
            && ref_ids(*else_expr).subset_of(ref_ids(e))),
        e matches Expr::Closure { body, captures, .. } ==> ((forall|i: int| 0 <= i < captures@.len() ==> ref_ids(e).contains(#[trigger] captures@[i]))
            && (forall|i: int| 0 <= i < body@.len() ==> ref_ids_stmt(#[trigger] body@[i]).subset_of(ref_ids(e)))),
        e matches Expr::ArrayPush { array_id, value } ==> (ref_ids(e).contains(array_id)
            && ref_ids(*value).subset_of(ref_ids(e))),
        e matches Expr::ArrayPop(id) ==> (ref_ids(e).contains(id)),
        e matches Expr::ArrayShift(id) ==> (ref_ids(e).contains(id)),
        e matches Expr::ArraySplice { array_id, start, delete_count, items } ==> (ref_ids(e).contains(array_id)
            && ref_ids(*start).subset_of(ref_ids(e))
            && (delete_count matches Some(d) ==> ref_ids(*d).subset_of(ref_ids(e)))
            && (forall|i: int| 0 <= i < items@.len() ==> ref_ids(#[trigger] items@[i]).subset_of(ref_ids(e)))),
        e matches Expr::SetAdd { set_id, value } ==> (ref_ids(e).contains(set_id)
            && ref_ids(*value).subset_of(ref_ids(e))),
        e matches Expr::Op { kind, args } ==> ((entered_by_ref_walk(kind) ==> (forall|i: int| 0 <= i < args.len() ==> ref_ids(#[trigger] args@[i]).subset_of(ref_ids(e))))),
{
    match e {
        Expr::Call { args, .. } => {
            lemma_ref_ids_list_elems(args@);
        },
        Expr::Closure { body, captures, .. } => {
            lemma_id_set_elems(captures@);
            lemma_ref_ids_stmts_elems(body@);
        },
        Expr::ArraySplice { items, .. } => {
            lemma_ref_ids_list_elems(items@);
        },
        Expr::Op { args, .. } => {
            lemma_ref_ids_list_elems(args@);
        },
        _ => {},
    }
}

/// Completeness of `ref_ids_stmt`: the locals of every expression and
/// nested statement the reference walker looks into are in the result.
pub proof fn lemma_ref_ids_stmt_complete(s: Stmt)
    ensures
        s matches Stmt::Expr(x) ==> (ref_ids(x).subset_of(ref_ids_stmt(s))),
        s matches Stmt::Throw(x) ==> (ref_ids(x).subset_of(ref_ids_stmt(s))),
        s matches Stmt::Return(Some(x)) ==> (ref_ids(x).subset_of(ref_ids_stmt(s))),
        s matches Stmt::Let { init: Some(x), .. } ==> (ref_ids(x).subset_of(ref_ids_stmt(s))),
        s matches Stmt::If { condition, then_branch, else_branch } ==> (ref_ids(condition).subset_of(ref_ids_stmt(s))
            && (forall|i: int| 0 <= i < then_branch@.len() ==> ref_ids_stmt(#[trigger] then_branch@[i]).subset_of(ref_ids_stmt(s)))
            && (else_branch matches Some(eb) ==> (forall|i: int| 0 <= i < eb@.len() ==> ref_ids_stmt(#[trigger] eb@[i]).subset_of(ref_ids_stmt(s))))),
        s matches Stmt::While { condition, body } ==> (ref_ids(condition).subset_of(ref_ids_stmt(s))
            && (forall|i: int| 0 <= i < body@.len() ==> ref_ids_stmt(#[trigger] body@[i]).subset_of(ref_ids_stmt(s)))),
        s matches Stmt::DoWhile { body, condition } ==> (ref_ids(condition).subset_of(ref_ids_stmt(s))
            && (forall|i: int| 0 <= i < body@.len() ==> ref_ids_stmt(#[trigger] body@[i]).subset_of(ref_ids_stmt(s)))),
        s matches Stmt::For { init, condition, update, body } ==> ((init matches Some(i) ==> ref_ids_stmt(*i).subset_of(ref_ids_stmt(s)))
            && (condition matches Some(c) ==> ref_ids(c).subset_of(ref_ids_stmt(s)))
            && (update matches Some(u) ==> ref_ids(u).subset_of(ref_ids_stmt(s)))
            && (forall|i: int| 0 <= i < body@.len() ==> ref_ids_stmt(#[trigger] body@[i]).subset_of(ref_ids_stmt(s)))),
{
    match s {
        Stmt::If { then_branch, else_branch, .. } => {
            lemma_ref_ids_stmts_elems(then_branch@);
            if let Some(eb) = else_branch { lemma_ref_ids_stmts_elems(eb@); };
        },
        Stmt::While { body, .. } => {
            lemma_ref_ids_stmts_elems(body@);
        },
        Stmt::DoWhile { body, .. } => {
            lemma_ref_ids_stmts_elems(body@);
        },
        Stmt::For { body, .. } => {
            lemma_ref_ids_stmts_elems(body@);
        },
        _ => {},
    }
}

/// Each element's part is included in the whole list's.
pub proof fn lemma_localset_ids_list_elems(es: Seq<Expr>)
    ensures
        forall|i: int| 0 <= i < es.len() ==> localset_ids(#[trigger] es[i]).subset_of(localset_ids_list(es)),
    decreases es.len(),
{
    if es.len() > 0 {
        lemma_localset_ids_list_elems(es.drop_last());
        assert forall|i: int| 0 <= i < es.len() implies localset_ids(#[trigger] es[i]).subset_of(localset_ids_list(es)) by {
            if i + 1 < es.len() {
                assert(es.drop_last()[i] == es[i]);
            }
        }
    }
}

/// Each element's part is included in the whole list's.
pub proof fn lemma_localset_ids_stmts_elems(es: Seq<Stmt>)
    ensures
        forall|i: int| 0 <= i < es.len() ==> localset_ids_stmt(#[trigger] es[i]).subset_of(localset_ids_stmts(es)),
    decreases es.len(),
{
    if es.len() > 0 {
        lemma_localset_ids_stmts_elems(es.drop_last());
        assert forall|i: int| 0 <= i < es.len() implies localset_ids_stmt(#[trigger] es[i]).subset_of(localset_ids_stmts(es)) by {
            if i + 1 < es.len() {
                assert(es.drop_last()[i] == es[i]);
            }
        }
    }
}

/// Each case's part is included in the whole switch's.
pub proof fn lemma_localset_ids_cases_elems(cs: Seq<SwitchCase>)
    ensures
        forall|i: int| #![trigger cs[i]] 0 <= i < cs.len() ==> localset_ids_stmts(cs[i].body@).subset_of(localset_ids_cases(cs)),
        forall|i: int| #![trigger cs[i]] 0 <= i < cs.len() ==> (cs[i].test matches Some(t) ==> localset_ids(t).subset_of(localset_ids_cases(cs))),
    decreases cs.len(),
{
    if cs.len() > 0 {
        lemma_localset_ids_cases_elems(cs.drop_last());
        assert forall|i: int| #![trigger cs[i]] 0 <= i < cs.len() implies localset_ids_stmts(cs[i].body@).subset_of(localset_ids_cases(cs)) && (cs[i].test matches Some(t) ==> localset_ids(t).subset_of(localset_ids_cases(cs))) by {
            if i + 1 < cs.len() {
                assert(cs.drop_last()[i] == cs[i]);
            }
        }
    }
}

/// Completeness of `localset_ids`: the target of a `LocalSet` and every
/// `LocalSet` target in the sub-expressions and closure bodies the walker
/// visits is in the result.
pub proof fn lemma_localset_ids_complete(e: Expr)
    ensures
        e matches Expr::LocalSet(id, value) ==> (localset_ids(e).contains(id)
            && localset_ids(*value).subset_of(localset_ids(e))),
        e matches Expr::Binary { left, right, .. } ==> (localset_ids(*left).subset_of(localset_ids(e))
            && localset_ids(*right).subset_of(localset_ids(e))),
        e matches Expr::Compare { left, right, .. } ==> (localset_ids(*left).subset_of(localset_ids(e))
            && localset_ids(*right).subset_of(localset_ids(e))),
        e matches Expr::Call { callee, args } ==> (localset_ids(*callee).subset_of(localset_ids(e))
            && (forall|i: int| 0 <= i < args@.len() ==> localset_ids(#[trigger] args@[i]).subset_of(localset_ids(e)))),
        e matches Expr::Conditional { condition, then_expr, else_expr } ==> (localset_ids(*condition).subset_of(localset_ids(e))
            && localset_ids(*then_expr).subset_of(localset_ids(e))
            && localset_ids(*else_expr).subset_of(localset_ids(e))),
        e matches Expr::Closure { body, .. } ==> ((forall|i: int| 0 <= i < body@.len() ==> localset_ids_stmt(#[trigger] body@[i]).subset_of(localset_ids(e)))),
        e matches Expr::ArrayPush { array_id, value } ==> (localset_ids(*value).subset_of(localset_ids(e))),
        e matches Expr::ArraySplice { array_id, start, delete_count, items } ==> (localset_ids(*start).subset_of(localset_ids(e))
            && (delete_count matches Some(d) ==> localset_ids(*d).subset_of(localset_ids(e)))
            && (forall|i: int| 0 <= i < items@.len() ==> localset_ids(#[trigger] items@[i]).subset_of(localset_ids(e)))),
        e matches Expr::SetAdd { set_id, value } ==> (localset_ids(*value).subset_of(localset_ids(e))),
        e matches Expr::Op { kind, args } ==> ((entered_by_ref_walk(kind) ==> (forall|i: int| 0 <= i < args.len() ==> localset_ids(#[trigger] args@[i]).subset_of(localset_ids(e))))),
{
    match e {
        Expr::Call { args, .. } => {
            lemma_localset_ids_list_elems(args@);
        },
        Expr::Closure { body, .. } => {
            lemma_localset_ids_stmts_elems(body@);
        },
        Expr::ArraySplice { items, .. } => {
            lemma_localset_ids_list_elems(items@);
        },
        Expr::Op { args, .. } => {
            lemma_localset_ids_list_elems(args@);
        },
        _ => {},
    }
}

/// Completeness of `localset_ids_stmt`: every `LocalSet` target in the
/// expressions and nested blocks of a statement (both `if` branches, loop
/// bodies, `try`, `switch` and labeled bodies) is in the result.
pub proof fn lemma_localset_ids_stmt_complete(s: Stmt)
    ensures
        s matches Stmt::Expr(x) ==> (localset_ids(x).subset_of(localset_ids_stmt(s))),
        s matches Stmt::Throw(x) ==> (localset_ids(x).subset_of(localset_ids_stmt(s))),
        s matches Stmt::Return(Some(x)) ==> (localset_ids(x).subset_of(localset_ids_stmt(s))),
        s matches Stmt::Let { init: Some(x), .. } ==> (localset_ids(x).subset_of(localset_ids_stmt(s))),
        s matches Stmt::If { condition, then_branch, else_branch } ==> (localset_ids(condition).subset_of(localset_ids_stmt(s))
            && (forall|i: int| 0 <= i < then_branch@.len() ==> localset_ids_stmt(#[trigger] then_branch@[i]).subset_of(localset_ids_stmt(s)))
            && (else_branch matches Some(eb) ==> (forall|i: int| 0 <= i < eb@.len() ==> localset_ids_stmt(#[trigger] eb@[i]).subset_of(localset_ids_stmt(s))))),
        s matches Stmt::While { condition, body } ==> (localset_ids(condition).subset_of(localset_ids_stmt(s))
            && (forall|i: int| 0 <= i < body@.len() ==> localset_ids_stmt(#[trigger] body@[i]).subset_of(localset_ids_stmt(s)))),
        s matches Stmt::DoWhile { body, condition } ==> (localset_ids(condition).subset_of(localset_ids_stmt(s))
            && (forall|i: int| 0 <= i < body@.len() ==> localset_ids_stmt(#[trigger] body@[i]).subset_of(localset_ids_stmt(s)))),
        s matches Stmt::For { init, condition, update, body } ==> ((init matches Some(i) ==> localset_ids_stmt(*i).subset_of(localset_ids_stmt(s)))
            && (condition matches Some(c) ==> localset_ids(c).subset_of(localset_ids_stmt(s)))
            && (update matches Some(u) ==> localset_ids(u).subset_of(localset_ids_stmt(s)))
            && (forall|i: int| 0 <= i < body@.len() ==> localset_ids_stmt(#[trigger] body@[i]).subset_of(localset_ids_stmt(s)))),
        s matches Stmt::Try { body, catch, finally } ==> ((forall|i: int| 0 <= i < body@.len() ==> localset_ids_stmt(#[trigger] body@[i]).subset_of(localset_ids_stmt(s)))
            && (catch matches Some(c) ==> (forall|i: int| 0 <= i < c.body.len() ==> localset_ids_stmt(#[trigger] c.body@[i]).subset_of(localset_ids_stmt(s))))
            && (finally matches Some(f) ==> (forall|i: int| 0 <= i < f@.len() ==> localset_ids_stmt(#[trigger] f@[i]).subset_of(localset_ids_stmt(s))))),
        s matches Stmt::Switch { discriminant, cases } ==> (localset_ids(discriminant).subset_of(localset_ids_stmt(s))
            && (forall|i: int| 0 <= i < cases@.len() ==> (#[trigger] cases@[i].test matches Some(t) ==> localset_ids(t).subset_of(localset_ids_stmt(s))))
            && (forall|i: int, j: int| 0 <= i < cases@.len() && 0 <= j < cases@[i].body@.len() ==> localset_ids_stmt(#[trigger] cases@[i].body@[j]).subset_of(localset_ids_stmt(s)))),
        s matches Stmt::Labeled { body, .. } ==> (localset_ids_stmt(*body).subset_of(localset_ids_stmt(s))),
{
    match s {
        Stmt::If { then_branch, else_branch, .. } => {
            lemma_localset_ids_stmts_elems(then_branch@);
            if let Some(eb) = else_branch { lemma_localset_ids_stmts_elems(eb@); };
        },
        Stmt::While { body, .. } => {
            lemma_localset_ids_stmts_elems(body@);
        },
        Stmt::DoWhile { body, .. } => {
            lemma_localset_ids_stmts_elems(body@);
        },
        Stmt::For { body, .. } => {
            lemma_localset_ids_stmts_elems(body@);
        },
        Stmt::Try { body, catch, finally } => {
            lemma_localset_ids_stmts_elems(body@);
            if let Some(c) = catch { lemma_localset_ids_stmts_elems(c.body@); };
            if let Some(f) = finally { lemma_localset_ids_stmts_elems(f@); };
        },
        Stmt::Switch { cases, .. } => {
            lemma_localset_ids_cases_elems(cases@);
            assert forall|i: int, j: int| 0 <= i < cases.len() && 0 <= j < cases@[i].body@.len() implies localset_ids_stmt(#[trigger] cases@[i].body@[j]).subset_of(localset_ids_stmt(s)) by { lemma_localset_ids_stmts_elems(cases@[i].body@); };
        },
        _ => {},
    }
}

/// Each element's part is included in the whole list's.
pub proof fn lemma_let_ids_stmts_elems(es: Seq<Stmt>)
    ensures
        forall|i: int| 0 <= i < es.len() ==> let_ids_stmt(#[trigger] es[i]).subset_of(let_ids_stmts(es)),
    decreases es.len(),
{
    if es.len() > 0 {
        lemma_let_ids_stmts_elems(es.drop_last());
        assert forall|i: int| 0 <= i < es.len() implies let_ids_stmt(#[trigger] es[i]).subset_of(let_ids_stmts(es)) by {
            if i + 1 < es.len() {
                assert(es.drop_last()[i] == es[i]);
            }
        }
    }
}

/// Completeness of `let_ids_stmt`: a `let`'s own id, and every `let`
/// in the `if` branches, `for` initializer and body, and `while` /
/// `do`-`while` bodies, is in the result.
pub proof fn lemma_let_ids_complete(s: Stmt)
    ensures
        s matches Stmt::Let { id, .. } ==> (let_ids_stmt(s).contains(id)),
        s matches Stmt::If { then_branch, else_branch, .. } ==> ((forall|i: int| 0 <= i < then_branch@.len() ==> let_ids_stmt(#[trigger] then_branch@[i]).subset_of(let_ids_stmt(s)))
            && (else_branch matches Some(eb) ==> (forall|i: int| 0 <= i < eb@.len() ==> let_ids_stmt(#[trigger] eb@[i]).subset_of(let_ids_stmt(s))))),
        s matches Stmt::For { init, body, .. } ==> ((init matches Some(i) ==> let_ids_stmt(*i).subset_of(let_ids_stmt(s)))
            && (forall|i: int| 0 <= i < body@.len() ==> let_ids_stmt(#[trigger] body@[i]).subset_of(let_ids_stmt(s)))),
        s matches Stmt::While { body, .. } ==> ((forall|i: int| 0 <= i < body@.len() ==> let_ids_stmt(#[trigger] body@[i]).subset_of(let_ids_stmt(s)))),
        s matches Stmt::DoWhile { body, .. } ==> ((forall|i: int| 0 <= i < body@.len() ==> let_ids_stmt(#[trigger] body@[i]).subset_of(let_ids_stmt(s)))),
{
    match s {
        Stmt::If { then_branch, else_branch, .. } => {
            lemma_let_ids_stmts_elems(then_branch@);
            if let Some(eb) = else_branch { lemma_let_ids_stmts_elems(eb@); };
        },
        Stmt::For { body, .. } => {
            lemma_let_ids_stmts_elems(body@);
        },
        Stmt::While { body, .. } | Stmt::DoWhile { body, .. } => {
            lemma_let_ids_stmts_elems(body@);
        },
        _ => {},
    }
}

/// Each element's part is included in the whole list's.
pub proof fn lemma_integer_let_ids_stmts_elems(es: Seq<Stmt>)
    ensures
        forall|i: int| 0 <= i < es.len() ==> integer_let_ids_stmt(#[trigger] es[i]).subset_of(integer_let_ids_stmts(es)),
    decreases es.len(),
{
    if es.len() > 0 {
        lemma_integer_let_ids_stmts_elems(es.drop_last());
        assert forall|i: int| 0 <= i < es.len() implies integer_let_ids_stmt(#[trigger] es[i]).subset_of(integer_let_ids_stmts(es)) by {
            if i + 1 < es.len() {
                assert(es.drop_last()[i] == es[i]);
            }
        }
    }
}

/// Each case's part is included in the whole switch's.
pub proof fn lemma_integer_let_ids_cases_elems(cs: Seq<SwitchCase>)
    ensures
        forall|i: int| #![trigger cs[i]] 0 <= i < cs.len() ==> integer_let_ids_stmts(cs[i].body@).subset_of(integer_let_ids_cases(cs)),
    decreases cs.len(),
{
    if cs.len() > 0 {
        lemma_integer_let_ids_cases_elems(cs.drop_last());
        assert forall|i: int| #![trigger cs[i]] 0 <= i < cs.len() implies integer_let_ids_stmts(cs[i].body@).subset_of(integer_let_ids_cases(cs)) by {
            if i + 1 < cs.len() {
                assert(cs.drop_last()[i] == cs[i]);
            }
        }
    }
}

/// Completeness of `integer_let_ids_stmt`: a `let` with an integer
/// literal initializer contributes its id, and every such `let` in the
/// nested blocks (branches, loop bodies, `try`, `switch` cases, labeled
/// bodies) is in the result.
pub proof fn lemma_integer_let_ids_complete(s: Stmt)
    ensures
        s matches Stmt::Let { id, init: Some(Expr::Integer(_)) } ==> (integer_let_ids_stmt(s).contains(id)),
        s matches Stmt::If { then_branch, else_branch, .. } ==> ((forall|i: int| 0 <= i < then_branch@.len() ==> integer_let_ids_stmt(#[trigger] then_branch@[i]).subset_of(integer_let_ids_stmt(s)))
            && (else_branch matches Some(eb) ==> (forall|i: int| 0 <= i < eb@.len() ==> integer_let_ids_stmt(#[trigger] eb@[i]).subset_of(integer_let_ids_stmt(s))))),
        s matches Stmt::For { init, body, .. } ==> ((init matches Some(i) ==> integer_let_ids_stmt(*i).subset_of(integer_let_ids_stmt(s)))
            && (forall|i: int| 0 <= i < body@.len() ==> integer_let_ids_stmt(#[trigger] body@[i]).subset_of(integer_let_ids_stmt(s)))),
        s matches Stmt::While { body, .. } ==> ((forall|i: int| 0 <= i < body@.len() ==> integer_let_ids_stmt(#[trigger] body@[i]).subset_of(integer_let_ids_stmt(s)))),
        s matches Stmt::DoWhile { body, .. } ==> ((forall|i: int| 0 <= i < body@.len() ==> integer_let_ids_stmt(#[trigger] body@[i]).subset_of(integer_let_ids_stmt(s)))),
        s matches Stmt::Try { body, catch, finally } ==> ((forall|i: int| 0 <= i < body@.len() ==> integer_let_ids_stmt(#[trigger] body@[i]).subset_of(integer_let_ids_stmt(s)))
            && (catch matches Some(c) ==> (forall|i: int| 0 <= i < c.body.len() ==> integer_let_ids_stmt(#[trigger] c.body@[i]).subset_of(integer_let_ids_stmt(s))))
            && (finally matches Some(f) ==> (forall|i: int| 0 <= i < f@.len() ==> integer_let_ids_stmt(#[trigger] f@[i]).subset_of(integer_let_ids_stmt(s))))),
        s matches Stmt::Switch { cases, .. } ==> ((forall|i: int, j: int| 0 <= i < cases@.len() && 0 <= j < cases@[i].body@.len() ==> integer_let_ids_stmt(#[trigger] cases@[i].body@[j]).subset_of(integer_let_ids_stmt(s)))),
        s matches Stmt::Labeled { body, .. } ==> (integer_let_ids_stmt(*body).subset_of(integer_let_ids_stmt(s))),
{
    match s {
        Stmt::If { then_branch, else_branch, .. } => {
            lemma_integer_let_ids_stmts_elems(then_branch@);
            if let Some(eb) = else_branch { lemma_integer_let_ids_stmts_elems(eb@); };
        },
        Stmt::For { body, .. } => {
            lemma_integer_let_ids_stmts_elems(body@);
        },
        Stmt::While { body, .. } | Stmt::DoWhile { body, .. } => {
            lemma_integer_let_ids_stmts_elems(body@);
        },
        Stmt::Try { body, catch, finally } => {
            lemma_integer_let_ids_stmts_elems(body@);
            if let Some(c) = catch { lemma_integer_let_ids_stmts_elems(c.body@); };
            if let Some(f) = finally { lemma_integer_let_ids_stmts_elems(f@); };
        },
        Stmt::Switch { cases, .. } => {
            lemma_integer_let_ids_cases_elems(cases@);
            assert forall|i: int, j: int| 0 <= i < cases.len() && 0 <= j < cases@[i].body@.len() implies integer_let_ids_stmt(#[trigger] cases@[i].body@[j]).subset_of(integer_let_ids_stmt(s)) by { lemma_integer_let_ids_stmts_elems(cases@[i].body@); };
        },
        _ => {},
    }
}

/// The integer locals are exactly the integer-initialized `let`s that no
/// `LocalSet` anywhere in the body writes: a written local is never in
/// the result, and an integer `let` that is never written always is.
pub proof fn lemma_integer_locals_sound(ss: Seq<Stmt>, id: u32)
    ensures
        localset_ids_stmts(ss).contains(id) ==> !integer_locals(ss).contains(id),
        integer_let_ids_stmts(ss).contains(id) && !localset_ids_stmts(ss).contains(id) ==> integer_locals(
            ss,
        ).contains(id),
        integer_locals(ss).contains(id) ==> integer_let_ids_stmts(ss).contains(id),
{
}

/// A walk that starts with nothing seen.
pub open spec fn fresh_scan() -> ClosureScan {
    ClosureScan { seen: Set::empty(), found: Seq::empty() }
}

/// The ids a walk adds to `seen` do not depend on where it starts: the
/// result is the starting set plus the ids of every closure the walk
/// reaches.
pub proof fn lemma_scan_expr_seen(e: Expr, st: ClosureScan)
    ensures
        scan_expr(e, st).seen == st.seen + scan_expr(e, fresh_scan()).seen,
    decreases e,
{
    let z = fresh_scan();
    match e {
        Expr::Closure { func_id, body, .. } => {
            let st1 = ClosureScan {
                seen: st.seen.insert(func_id),
                found: if st.seen.contains(func_id) {
                    st.found
                } else {
                    st.found.push((func_id, e))
                },
            };
            let z1 = ClosureScan { seen: z.seen.insert(func_id), found: z.found.push((func_id, e)) };
            lemma_scan_stmts_seen(body@, st1);
            lemma_scan_stmts_seen(body@, z1);
        },
        Expr::Binary { left, right, .. } | Expr::Compare { left, right, .. } => {
            lemma_scan_expr_seen(*left, st);
            lemma_scan_expr_seen(*right, scan_expr(*left, st));
            lemma_scan_expr_seen(*right, scan_expr(*left, z));
        },
        Expr::Call { callee, args } => {
            lemma_scan_expr_seen(*callee, st);
            lemma_scan_list_seen(args@, scan_expr(*callee, st));
            lemma_scan_list_seen(args@, scan_expr(*callee, z));
        },
        Expr::Conditional { condition, then_expr, else_expr } => {
            lemma_scan_expr_seen(*condition, st);
            lemma_scan_expr_seen(*then_expr, scan_expr(*condition, st));
            lemma_scan_expr_seen(*then_expr, scan_expr(*condition, z));
            lemma_scan_expr_seen(*else_expr, scan_expr(*then_expr, scan_expr(*condition, st)));
            lemma_scan_expr_seen(*else_expr, scan_expr(*then_expr, scan_expr(*condition, z)));
        },
        Expr::LocalSet(_, value) | Expr::ArrayPush { value, .. } | Expr::SetAdd { value, .. } => {
            lemma_scan_expr_seen(*value, st);
        },
        Expr::ArraySplice { start, delete_count, items, .. } => {
            lemma_scan_expr_seen(*start, st);
            let s1 = scan_expr(*start, st);
            let z1 = scan_expr(*start, z);
            let s2 = match delete_count {
                Some(d) => scan_expr(*d, s1),
                None => s1,
            };
            let z2 = match delete_count {
                Some(d) => scan_expr(*d, z1),
                None => z1,
            };
            match delete_count {
                Some(d) => {
                    lemma_scan_expr_seen(*d, s1);
                    lemma_scan_expr_seen(*d, z1);
                },
                None => {},
            }
            lemma_scan_list_seen(items@, s2);
            lemma_scan_list_seen(items@, z2);
        },
        Expr::Op { kind, args } => {
            if entered_by_closure_walk(kind) {
                lemma_scan_list_seen(args@, st);
            }
        },
        _ => {},
    }
    assert(scan_expr(e, st).seen =~= st.seen + scan_expr(e, z).seen);
}

pub proof fn lemma_scan_list_seen(es: Seq<Expr>, st: ClosureScan)
    ensures
        scan_list(es, st).seen == st.seen + scan_list(es, fresh_scan()).seen,
    decreases es,
{
    if es.len() > 0 {
        let z = fresh_scan();
        lemma_scan_list_seen(es.drop_last(), st);
        lemma_scan_expr_seen(es.last(), scan_list(es.drop_last(), st));
        lemma_scan_expr_seen(es.last(), scan_list(es.drop_last(), z));
        assert(scan_list(es, st).seen =~= st.seen + scan_list(es, z).seen);
    } else {
        assert(scan_list(es, st).seen =~= st.seen + scan_list(es, fresh_scan()).seen);
    }
}

pub proof fn lemma_scan_stmt_seen(s: Stmt, st: ClosureScan)
    ensures
        scan_stmt(s, st).seen == st.seen + scan_stmt(s, fresh_scan()).seen,
    decreases s,
{
    let z = fresh_scan();
    match s {
        Stmt::Expr(e) | Stmt::Throw(e) | Stmt::Return(Some(e)) | Stmt::Let { init: Some(e), .. } => {
            lemma_scan_expr_seen(e, st);
        },
        Stmt::If { condition, then_branch, else_branch } => {
            lemma_scan_expr_seen(condition, st);
            let s1 = scan_expr(condition, st);
            let z1 = scan_expr(condition, z);
            lemma_scan_stmts_seen(then_branch@, s1);
            lemma_scan_stmts_seen(then_branch@, z1);
            if let Some(eb) = else_branch {
                lemma_scan_stmts_seen(eb@, scan_stmts(then_branch@, s1));
                lemma_scan_stmts_seen(eb@, scan_stmts(then_branch@, z1));
            }
        },
        Stmt::While { condition, body } => {
            lemma_scan_expr_seen(condition, st);
            lemma_scan_stmts_seen(body@, scan_expr(condition, st));
            lemma_scan_stmts_seen(body@, scan_expr(condition, z));
        },
        Stmt::DoWhile { body, condition } => {
            lemma_scan_stmts_seen(body@, st);
            lemma_scan_expr_seen(condition, scan_stmts(body@, st));
            lemma_scan_expr_seen(condition, scan_stmts(body@, z));
        },
        Stmt::For { init, condition, update, body } => {
            let s1 = match init {
                Some(i) => scan_stmt(*i, st),
                None => st,
            };
            let z1 = match init {
                Some(i) => scan_stmt(*i, z),
                None => z,
            };
            if let Some(i) = init {
                lemma_scan_stmt_seen(*i, st);
            }
            let s2 = match condition {
                Some(c) => scan_expr(c, s1),
                None => s1,
            };
            let z2 = match condition {
                Some(c) => scan_expr(c, z1),
                None => z1,
            };
            if let Some(c) = condition {
                lemma_scan_expr_seen(c, s1);
                lemma_scan_expr_seen(c, z1);
            }
            let s3 = match update {
                Some(u) => scan_expr(u, s2),
                None => s2,
            };
            let z3 = match update {
                Some(u) => scan_expr(u, z2),
                None => z2,
            };
            if let Some(u) = update {
                lemma_scan_expr_seen(u, s2);
                lemma_scan_expr_seen(u, z2);
            }
            lemma_scan_stmts_seen(body@, s3);
            lemma_scan_stmts_seen(body@, z3);
        },
        Stmt::Switch { discriminant, cases } => {
            lemma_scan_expr_seen(discriminant, st);
            lemma_scan_cases_seen(cases@, scan_expr(discriminant, st));
            lemma_scan_cases_seen(cases@, scan_expr(discriminant, z));
        },
        Stmt::Try { body, catch, finally } => {
            lemma_scan_stmts_seen(body@, st);
            let s1 = scan_stmts(body@, st);
            let z1 = scan_stmts(body@, z);
            let s2 = match catch {
                Some(c) => scan_stmts(c.body@, s1),
                None => s1,
            };
            let z2 = match catch {
                Some(c) => scan_stmts(c.body@, z1),
                None => z1,
            };
            if let Some(c) = catch {
                lemma_scan_stmts_seen(c.body@, s1);
                lemma_scan_stmts_seen(c.body@, z1);
            }
            if let Some(f) = finally {
                lemma_scan_stmts_seen(f@, s2);
                lemma_scan_stmts_seen(f@, z2);
            }
        },
        Stmt::Labeled { body, .. } => {
            lemma_scan_stmt_seen(*body, st);
        },
        _ => {},
    }
    assert(scan_stmt(s, st).seen =~= st.seen + scan_stmt(s, z).seen);
}

pub proof fn lemma_scan_stmts_seen(ss: Seq<Stmt>, st: ClosureScan)
    ensures
        scan_stmts(ss, st).seen == st.seen + scan_stmts(ss, fresh_scan()).seen,
    decreases ss,
{
    if ss.len() > 0 {
        let z = fresh_scan();
        lemma_scan_stmts_seen(ss.drop_last(), st);
        lemma_scan_stmt_seen(ss.last(), scan_stmts(ss.drop_last(), st));
        lemma_scan_stmt_seen(ss.last(), scan_stmts(ss.drop_last(), z));
        assert(scan_stmts(ss, st).seen =~= st.seen + scan_stmts(ss, z).seen);
    } else {
        assert(scan_stmts(ss, st).seen =~= st.seen + scan_stmts(ss, fresh_scan()).seen);
    }
}

pub proof fn lemma_scan_cases_seen(cs: Seq<SwitchCase>, st: ClosureScan)
    ensures
        scan_cases(cs, st).seen == st.seen + scan_cases(cs, fresh_scan()).seen,
    decreases cs,
{
    let z = fresh_scan();
    if cs.len() > 0 {
        lemma_scan_cases_seen(cs.drop_last(), st);
        let s1 = scan_cases(cs.drop_last(), st);
        let z1 = scan_cases(cs.drop_last(), z);
        let s2 = match cs.last().test {
            Some(t) => scan_expr(t, s1),
            None => s1,
        };
        let z2 = match cs.last().test {
            Some(t) => scan_expr(t, z1),
            None => z1,
        };
        if let Some(t) = cs.last().test {
            lemma_scan_expr_seen(t, s1);
            lemma_scan_expr_seen(t, z1);
        }
        lemma_scan_stmts_seen(cs.last().body@, s2);
        lemma_scan_stmts_seen(cs.last().body@, z2);
    }
    assert(scan_cases(cs, st).seen =~= st.seen + scan_cases(cs, z).seen);
}

/// The function ids a closure walk over `e` reaches.
pub open spec fn reached(e: Expr) -> Set<u32> {
    scan_expr(e, fresh_scan()).seen
}

pub open spec fn reached_list(es: Seq<Expr>) -> Set<u32> {
    scan_list(es, fresh_scan()).seen
}

pub open spec fn reached_stmt(s: Stmt) -> Set<u32> {
    scan_stmt(s, fresh_scan()).seen
}

pub open spec fn reached_stmts(ss: Seq<Stmt>) -> Set<u32> {
    scan_stmts(ss, fresh_scan()).seen
}

pub open spec fn reached_cases(cs: Seq<SwitchCase>) -> Set<u32> {
    scan_cases(cs, fresh_scan()).seen
}

pub proof fn lemma_reached_list_elems(es: Seq<Expr>)
    ensures
        forall|i: int| 0 <= i < es.len() ==> reached(#[trigger] es[i]).subset_of(reached_list(es)),
    decreases es.len(),
{
    if es.len() > 0 {
        let prev = es.drop_last();
        lemma_reached_list_elems(prev);
        lemma_scan_expr_seen(es.last(), scan_list(prev, fresh_scan()));
        assert forall|i: int| 0 <= i < es.len() implies reached(#[trigger] es[i]).subset_of(reached_list(es)) by {
            if i + 1 < es.len() {
                assert(prev[i] == es[i]);
            }
        }
    }
}

pub proof fn lemma_reached_stmts_elems(ss: Seq<Stmt>)
    ensures
        forall|i: int| 0 <= i < ss.len() ==> reached_stmt(#[trigger] ss[i]).subset_of(reached_stmts(ss)),
    decreases ss.len(),
{
    if ss.len() > 0 {
        let prev = ss.drop_last();
        lemma_reached_stmts_elems(prev);
        lemma_scan_stmt_seen(ss.last(), scan_stmts(prev, fresh_scan()));
        assert forall|i: int| 0 <= i < ss.len() implies reached_stmt(#[trigger] ss[i]).subset_of(reached_stmts(ss)) by {
            if i + 1 < ss.len() {
                assert(prev[i] == ss[i]);
            }
        }
    }
}

pub proof fn lemma_reached_cases_elems(cs: Seq<SwitchCase>)
    ensures
        forall|i: int| #![trigger cs[i]] 0 <= i < cs.len() ==> (cs[i].test matches Some(t) ==> reached(t).subset_of(reached_cases(cs))),
        forall|i: int, j: int|
            0 <= i < cs.len() && 0 <= j < cs[i].body@.len() ==> reached_stmt(#[trigger] cs[i].body@[j]).subset_of(reached_cases(cs)),
    decreases cs.len(),
{
    if cs.len() > 0 {
        let z = fresh_scan();
        let prev = cs.drop_last();
        lemma_reached_cases_elems(prev);
        let s1 = scan_cases(prev, z);
        let s2 = match cs.last().test {
            Some(t) => scan_expr(t, s1),
            None => s1,
        };
        if let Some(t) = cs.last().test {
            lemma_scan_expr_seen(t, s1);
        }
        lemma_scan_stmts_seen(cs.last().body@, s2);
        lemma_reached_stmts_elems(cs.last().body@);
        assert forall|i: int| #![trigger cs[i]] 0 <= i < cs.len() implies (cs[i].test matches Some(t) ==> reached(t).subset_of(reached_cases(cs))) by {
            if i + 1 < cs.len() {
                assert(prev[i] == cs[i]);
            }
        }
        assert forall|i: int, j: int| 0 <= i < cs.len() && 0 <= j < cs[i].body@.len() implies reached_stmt(#[trigger] cs[i].body@[j]).subset_of(reached_cases(cs)) by {
            if i + 1 < cs.len() {
                assert(prev[i] == cs[i]);
            }
        }
    }
}

/// Completeness of the closure walk on expressions: a closure literal's
/// id is reached, and, when the walk starts from a sound state that has
/// not seen it, the closure itself is recorded; every id reached in a
/// sub-expression or closure body the walker visits is reached by the
/// whole. From any starting state, the walk's `seen` is the starting set
/// plus `reached(e)` (`lemma_scan_expr_seen`).
pub proof fn lemma_scan_complete(e: Expr)
    ensures
        e matches Expr::Closure { func_id, body, .. } ==> (reached(e).contains(func_id)
            && (forall|i: int| 0 <= i < body.len() ==> reached_stmt(#[trigger] body@[i]).subset_of(reached(e)))
            && (forall|st: ClosureScan| scan_ok(st) && !st.seen.contains(func_id) ==> #[trigger] scan_expr(e, st).found.contains((func_id, e)))),
        e matches Expr::Binary { left, right, .. } ==> (reached(*left).subset_of(reached(e)) && reached(*right).subset_of(reached(e))),
        e matches Expr::Compare { left, right, .. } ==> (reached(*left).subset_of(reached(e)) && reached(*right).subset_of(reached(e))),
        e matches Expr::Call { callee, args } ==> (reached(*callee).subset_of(reached(e)) && (forall|i: int|
            0 <= i < args.len() ==> reached(#[trigger] args@[i]).subset_of(reached(e)))),
        e matches Expr::Conditional { condition, then_expr, else_expr } ==> (reached(*condition).subset_of(reached(e))
            && reached(*then_expr).subset_of(reached(e)) && reached(*else_expr).subset_of(reached(e))),
        e matches Expr::LocalSet(_, value) ==> reached(*value).subset_of(reached(e)),
        e matches Expr::ArrayPush { value, .. } ==> reached(*value).subset_of(reached(e)),
        e matches Expr::SetAdd { value, .. } ==> reached(*value).subset_of(reached(e)),
        e matches Expr::ArraySplice { start, delete_count, items, .. } ==> (reached(*start).subset_of(reached(e))
            && (delete_count matches Some(d) ==> reached(*d).subset_of(reached(e))) && (forall|i: int|
            0 <= i < items.len() ==> reached(#[trigger] items@[i]).subset_of(reached(e)))),
        e matches Expr::Op { kind, args } ==> (entered_by_closure_walk(kind) ==> (forall|i: int|
            0 <= i < args.len() ==> reached(#[trigger] args@[i]).subset_of(reached(e)))),
{
    let z = fresh_scan();
    match e {
        Expr::Closure { func_id, body, .. } => {
            let z1 = ClosureScan { seen: z.seen.insert(func_id), found: z.found.push((func_id, e)) };
            lemma_scan_stmts_seen(body@, z1);
            lemma_reached_stmts_elems(body@);
            assert forall|st: ClosureScan| scan_ok(st) && !st.seen.contains(func_id) implies #[trigger] scan_expr(e, st).found.contains((func_id, e)) by {
                let st1 = ClosureScan { seen: st.seen.insert(func_id), found: st.found.push((func_id, e)) };
                assert(scan_ok(st1)) by {
                    assert forall|i: int, j: int| 0 <= i < j < st1.found.len() implies #[trigger] st1.found[i].0
                        != #[trigger] st1.found[j].0 by {
                        if j == st.found.len() {
                            assert(st.seen.contains(st.found[i].0));
                        } else {
                            assert(st1.found[i] == st.found[i] && st1.found[j] == st.found[j]);
                        }
                    }
                    assert forall|i: int| 0 <= i < st1.found.len() implies st1.seen.contains(#[trigger] st1.found[i].0) by {
                        if i < st.found.len() {
                            assert(st1.found[i] == st.found[i]);
                        }
                    }
                }
                lemma_scan_stmts_once(body@, st1);
                let r = scan_stmts(body@, st1);
                assert(st1.found[st.found.len() as int] == (func_id, e));
                assert(r.found[st.found.len() as int] == (func_id, e));
            }
        },
        Expr::Binary { left, right, .. } | Expr::Compare { left, right, .. } => {
            lemma_scan_expr_seen(*right, scan_expr(*left, z));
        },
        Expr::Call { callee, args } => {
            lemma_scan_list_seen(args@, scan_expr(*callee, z));
            lemma_reached_list_elems(args@);
        },
        Expr::Conditional { condition, then_expr, else_expr } => {
            lemma_scan_expr_seen(*then_expr, scan_expr(*condition, z));
            lemma_scan_expr_seen(*else_expr, scan_expr(*then_expr, scan_expr(*condition, z)));
        },
        Expr::ArraySplice { start, delete_count, items, .. } => {
            let z1 = scan_expr(*start, z);
            let z2 = match delete_count {
                Some(d) => scan_expr(*d, z1),
                None => z1,
            };
            if let Some(d) = delete_count {
                lemma_scan_expr_seen(*d, z1);
            }
            lemma_scan_list_seen(items@, z2);
            lemma_reached_list_elems(items@);
        },
        Expr::Op { kind, args } => {
            lemma_reached_list_elems(args@);
        },
        _ => {},
    }
}

/// Completeness of the closure walk on statements: everything reached in
/// a `let` initializer, an expression statement, a returned or thrown
/// value, and in the parts of `if`, `while`, `do`-`while`, `for`, `try`,
/// `switch` and labeled statements is reached by the statement.
pub proof fn lemma_scan_stmt_complete(s: Stmt)
    ensures
        s matches Stmt::Let { init: Some(x), .. } ==> reached_stmt(s) == reached(x),
        s matches Stmt::Expr(x) ==> reached_stmt(s) == reached(x),
        s matches Stmt::Return(Some(x)) ==> reached_stmt(s) == reached(x),
        s matches Stmt::Throw(x) ==> reached_stmt(s) == reached(x),
        s matches Stmt::If { condition, then_branch, else_branch } ==> (reached(condition).subset_of(reached_stmt(s))
            && (forall|i: int| 0 <= i < then_branch.len() ==> reached_stmt(#[trigger] then_branch@[i]).subset_of(reached_stmt(s)))
            && (else_branch matches Some(eb) ==> (forall|i: int| 0 <= i < eb.len() ==> reached_stmt(#[trigger] eb@[i]).subset_of(reached_stmt(s))))),
        s matches Stmt::While { condition, body } ==> (reached(condition).subset_of(reached_stmt(s))
            && (forall|i: int| 0 <= i < body.len() ==> reached_stmt(#[trigger] body@[i]).subset_of(reached_stmt(s)))),
        s matches Stmt::DoWhile { body, condition } ==> (reached(condition).subset_of(reached_stmt(s))
            && (forall|i: int| 0 <= i < body.len() ==> reached_stmt(#[trigger] body@[i]).subset_of(reached_stmt(s)))),
        s matches Stmt::For { init, condition, update, body } ==> ((init matches Some(i0) ==> reached_stmt(*i0).subset_of(reached_stmt(s)))
            && (condition matches Some(c) ==> reached(c).subset_of(reached_stmt(s)))
            && (update matches Some(u) ==> reached(u).subset_of(reached_stmt(s)))
            && (forall|i: int| 0 <= i < body.len() ==> reached_stmt(#[trigger] body@[i]).subset_of(reached_stmt(s)))),
        s matches Stmt::Try { body, catch, finally } ==> ((forall|i: int| 0 <= i < body.len() ==> reached_stmt(#[trigger] body@[i]).subset_of(reached_stmt(s)))
            && (catch matches Some(c) ==> (forall|i: int| 0 <= i < c.body.len() ==> reached_stmt(#[trigger] c.body@[i]).subset_of(reached_stmt(s))))
            && (finally matches Some(f) ==> (forall|i: int| 0 <= i < f.len() ==> reached_stmt(#[trigger] f@[i]).subset_of(reached_stmt(s))))),
        s matches Stmt::Switch { discriminant, cases } ==> (reached(discriminant).subset_of(reached_stmt(s))
            && (forall|i: int| #![trigger cases@[i]] 0 <= i < cases.len() ==> (cases@[i].test matches Some(t) ==> reached(t).subset_of(reached_stmt(s))))
            && (forall|i: int, j: int| 0 <= i < cases.len() && 0 <= j < cases@[i].body@.len() ==> reached_stmt(#[trigger] cases@[i].body@[j]).subset_of(reached_stmt(s)))),
        s matches Stmt::Labeled { body, .. } ==> reached_stmt(s) == reached_stmt(*body),
{
    let z = fresh_scan();
    match s {
        Stmt::If { condition, then_branch, else_branch } => {
            let z1 = scan_expr(condition, z);
            lemma_scan_stmts_seen(then_branch@, z1);
            lemma_reached_stmts_elems(then_branch@);
            if let Some(eb) = else_branch {
                lemma_scan_stmts_seen(eb@, scan_stmts(then_branch@, z1));
                lemma_reached_stmts_elems(eb@);
            }
        },
        Stmt::While { condition, body } => {
            lemma_scan_stmts_seen(body@, scan_expr(condition, z));
            lemma_reached_stmts_elems(body@);
        },
        Stmt::DoWhile { body, condition } => {
            lemma_scan_expr_seen(condition, scan_stmts(body@, z));
            lemma_reached_stmts_elems(body@);
        },
        Stmt::For { init, condition, update, body } => {
            let z1 = match init {
                Some(i) => scan_stmt(*i, z),
                None => z,
            };
            let z2 = match condition {
                Some(c) => scan_expr(c, z1),
                None => z1,
            };
            let z3 = match update {
                Some(u) => scan_expr(u, z2),
                None => z2,
            };
            if let Some(c) = condition {
                lemma_scan_expr_seen(c, z1);
            }
            if let Some(u) = update {
                lemma_scan_expr_seen(u, z2);
            }
            lemma_scan_stmts_seen(body@, z3);
            lemma_reached_stmts_elems(body@);
        },
        Stmt::Try { body, catch, finally } => {
            let z1 = scan_stmts(body@, z);
            let z2 = match catch {
                Some(c) => scan_stmts(c.body@, z1),
                None => z1,
            };
            lemma_reached_stmts_elems(body@);
            if let Some(c) = catch {
                lemma_scan_stmts_seen(c.body@, z1);
                lemma_reached_stmts_elems(c.body@);
            }
            if let Some(f) = finally {
                lemma_scan_stmts_seen(f@, z2);
                lemma_reached_stmts_elems(f@);
            }
        },
        Stmt::Switch { discriminant, cases } => {
            lemma_scan_cases_seen(cases@, scan_expr(discriminant, z));
            lemma_reached_cases_elems(cases@);
        },
        _ => {},
    }
}

/// Every local id written anywhere in an expression: read, written,
/// updated or mutated locals, the explicit and mutable captures of
/// closures, and the `let`s and locals of closure bodies, whatever
/// operation they sit under.
pub open spec fn locals_in(e: Expr) -> Set<u32>
    decreases e,
{
    match e {
        Expr::LocalGet(id) => set![id],
        Expr::LocalSet(id, value) => set![id] + locals_in(*value),
        Expr::Update { id } => set![id],
        Expr::Binary { left, right, .. } => locals_in(*left) + locals_in(*right),
        Expr::Compare { left, right, .. } => locals_in(*left) + locals_in(*right),
        Expr::Call { callee, args } => locals_in(*callee) + locals_in_list(args@),
        Expr::Conditional { condition, then_expr, else_expr } => locals_in(*condition) + locals_in(*then_expr)
            + locals_in(*else_expr),
        Expr::Closure { body, captures, mutable_captures, .. } => id_set(captures@) + id_set(mutable_captures@)
            + locals_in_stmts(body@),
        Expr::ArrayPush { array_id, value } => set![array_id] + locals_in(*value),
        Expr::ArrayPop(id) => set![id],
        Expr::ArrayShift(id) => set![id],
        Expr::ArraySplice { array_id, start, delete_count, items } => set![array_id] + locals_in(*start) + (
        match delete_count {
            Some(d) => locals_in(*d),
            None => Set::empty(),
        }) + locals_in_list(items@),
        Expr::SetAdd { set_id, value } => set![set_id] + locals_in(*value),
        Expr::Op { args, .. } => locals_in_list(args@),
        _ => Set::empty(),
    }
}

pub open spec fn locals_in_list(es: Seq<Expr>) -> Set<u32>
    decreases es,
{
    if es.len() == 0 {
        Set::empty()
    } else {
        locals_in_list(es.drop_last()) + locals_in(es.last())
    }
}

/// Every local id written anywhere in a statement, its own `let` ids
/// included.
pub open spec fn locals_in_stmt(s: Stmt) -> Set<u32>
    decreases s,
{
    match s {
        Stmt::Expr(e) => locals_in(e),
        Stmt::Throw(e) => locals_in(e),
        Stmt::Return(opt) => match opt {
            Some(e) => locals_in(e),
            None => Set::empty(),
        },
        Stmt::Let { id, init } => set![id] + match init {
            Some(e) => locals_in(e),
            None => Set::empty(),
        },
        Stmt::If { condition, then_branch, else_branch } => locals_in(condition) + locals_in_stmts(then_branch@) + (
        match else_branch {
            Some(eb) => locals_in_stmts(eb@),
            None => Set::empty(),
        }),
        Stmt::While { condition, body } => locals_in(condition) + locals_in_stmts(body@),
        Stmt::DoWhile { body, condition } => locals_in_stmts(body@) + locals_in(condition),
        Stmt::For { init, condition, update, body } => (match init {
            Some(i) => locals_in_stmt(*i),
            None => Set::empty(),
        }) + (match condition {
            Some(c) => locals_in(c),
            None => Set::empty(),
        }) + (match update {
            Some(u) => locals_in(u),
            None => Set::empty(),
        }) + locals_in_stmts(body@),
        Stmt::Try { body, catch, finally } => locals_in_stmts(body@) + (match catch {
            Some(c) => locals_in_stmts(c.body@),
            None => Set::empty(),
        }) + (match finally {
            Some(f) => locals_in_stmts(f@),
            None => Set::empty(),
        }),
        Stmt::Switch { discriminant, cases } => locals_in(discriminant) + locals_in_cases(cases@),
        Stmt::Labeled { body, .. } => locals_in_stmt(*body),
        Stmt::Other => Set::empty(),
    }
}

pub open spec fn locals_in_stmts(ss: Seq<Stmt>) -> Set<u32>
    decreases ss,
{
    if ss.len() == 0 {
        Set::empty()
    } else {
        locals_in_stmts(ss.drop_last()) + locals_in_stmt(ss.last())
    }
}

pub open spec fn locals_in_cases(cs: Seq<SwitchCase>) -> Set<u32>
    decreases cs,
{
    if cs.len() == 0 {
        Set::empty()
    } else {
        locals_in_cases(cs.drop_last()) + (match cs.last().test {
            Some(t) => locals_in(t),
            None => Set::empty(),
        }) + locals_in_stmts(cs.last().body@)
    }
}


/// Soundness of `ref_ids`: it reports only locals that occur in the
/// expression.
pub proof fn lemma_ref_ids_sound(e: Expr)
    ensures
        ref_ids(e).subset_of(locals_in(e)),
    decreases e,
{
    match e {
        Expr::LocalSet(_, value) | Expr::ArrayPush { value, .. } | Expr::SetAdd { value, .. } => {
            lemma_ref_ids_sound(*value);
        },
        Expr::Binary { left, right, .. } | Expr::Compare { left, right, .. } => {
            lemma_ref_ids_sound(*left);
            lemma_ref_ids_sound(*right);
        },
        Expr::Call { callee, args } => {
            lemma_ref_ids_sound(*callee);
            lemma_ref_ids_list_sound(args@);
        },
        Expr::Conditional { condition, then_expr, else_expr } => {
            lemma_ref_ids_sound(*condition);
            lemma_ref_ids_sound(*then_expr);
            lemma_ref_ids_sound(*else_expr);
        },
        Expr::Closure { body, .. } => {
            lemma_ref_ids_stmts_sound(body@);
        },
        Expr::ArraySplice { start, delete_count, items, .. } => {
            lemma_ref_ids_sound(*start);
            if let Some(d) = delete_count {
                lemma_ref_ids_sound(*d);
            }
            lemma_ref_ids_list_sound(items@);
        },
        Expr::Op { args, .. } => {
            lemma_ref_ids_list_sound(args@);
        },
        _ => {},
    }
}

pub proof fn lemma_ref_ids_list_sound(es: Seq<Expr>)
    ensures
        ref_ids_list(es).subset_of(locals_in_list(es)),
    decreases es,
{
    if es.len() > 0 {
        lemma_ref_ids_list_sound(es.drop_last());
        lemma_ref_ids_sound(es.last());
    }
}

/// Soundness of `ref_ids_stmt`: it reports only locals that occur in the
/// statement.
pub proof fn lemma_ref_ids_stmt_sound(s: Stmt)
    ensures
        ref_ids_stmt(s).subset_of(locals_in_stmt(s)),
    decreases s,
{
    match s {
        Stmt::Expr(x) | Stmt::Throw(x) | Stmt::Return(Some(x)) | Stmt::Let { init: Some(x), .. } => {
            lemma_ref_ids_sound(x);
        },
        Stmt::If { condition, then_branch, else_branch } => {
            lemma_ref_ids_sound(condition);
            lemma_ref_ids_stmts_sound(then_branch@);
            if let Some(eb) = else_branch {
                lemma_ref_ids_stmts_sound(eb@);
            }
        },
        Stmt::While { condition, body } | Stmt::DoWhile { body, condition } => {
            lemma_ref_ids_sound(condition);
            lemma_ref_ids_stmts_sound(body@);
        },
        Stmt::For { init, condition, update, body } => {
            if let Some(i) = init {
                lemma_ref_ids_stmt_sound(*i);
            }
            if let Some(c) = condition {
                lemma_ref_ids_sound(c);
            }
            if let Some(u) = update {
                lemma_ref_ids_sound(u);
            }
            lemma_ref_ids_stmts_sound(body@);
        },
        Stmt::Try { body, catch, finally } => {
            lemma_ref_ids_stmts_sound(body@);
            if let Some(c) = catch {
                lemma_ref_ids_stmts_sound(c.body@);
            }
            if let Some(f) = finally {
                lemma_ref_ids_stmts_sound(f@);
            }
        },
        Stmt::Switch { discriminant, cases } => {
            lemma_ref_ids_sound(discriminant);
            
        },
        Stmt::Labeled { body, .. } => {
            lemma_ref_ids_stmt_sound(*body);
        },
        _ => {},
    }
}

pub proof fn lemma_ref_ids_stmts_sound(ss: Seq<Stmt>)
    ensures
        ref_ids_stmts(ss).subset_of(locals_in_stmts(ss)),
    decreases ss,
{
    if ss.len() > 0 {
        lemma_ref_ids_stmts_sound(ss.drop_last());
        lemma_ref_ids_stmt_sound(ss.last());
    }
}

/// Soundness of `localset_ids`: it reports only locals that occur in
/// the expression.
pub proof fn lemma_localset_ids_sound(e: Expr)
    ensures
        localset_ids(e).subset_of(locals_in(e)),
    decreases e,
{
    match e {
        Expr::LocalSet(_, value) | Expr::ArrayPush { value, .. } | Expr::SetAdd { value, .. } => {
            lemma_localset_ids_sound(*value);
        },
        Expr::Binary { left, right, .. } | Expr::Compare { left, right, .. } => {
            lemma_localset_ids_sound(*left);
            lemma_localset_ids_sound(*right);
        },
        Expr::Call { callee, args } => {
            lemma_localset_ids_sound(*callee);
            lemma_localset_ids_list_sound(args@);
        },
        Expr::Conditional { condition, then_expr, else_expr } => {
            lemma_localset_ids_sound(*condition);
            lemma_localset_ids_sound(*then_expr);
            lemma_localset_ids_sound(*else_expr);
        },
        Expr::Closure { body, .. } => {
            lemma_localset_ids_stmts_sound(body@);
        },
        Expr::ArraySplice { start, delete_count, items, .. } => {
            lemma_localset_ids_sound(*start);
            if let Some(d) = delete_count {
                lemma_localset_ids_sound(*d);
            }
            lemma_localset_ids_list_sound(items@);
        },
        Expr::Op { args, .. } => {
            lemma_localset_ids_list_sound(args@);
        },
        _ => {},
    }
}

pub proof fn lemma_localset_ids_list_sound(es: Seq<Expr>)
    ensures
        localset_ids_list(es).subset_of(locals_in_list(es)),
    decreases es,
{
    if es.len() > 0 {
        lemma_localset_ids_list_sound(es.drop_last());
        lemma_localset_ids_sound(es.last());
    }
}

/// Soundness of `localset_ids_stmt`: it reports only locals that occur in the
/// statement.
pub proof fn lemma_localset_ids_stmt_sound(s: Stmt)
    ensures
        localset_ids_stmt(s).subset_of(locals_in_stmt(s)),
    decreases s,
{
    match s {
        Stmt::Expr(x) | Stmt::Throw(x) | Stmt::Return(Some(x)) | Stmt::Let { init: Some(x), .. } => {
            lemma_localset_ids_sound(x);
        },
        Stmt::If { condition, then_branch, else_branch } => {
            lemma_localset_ids_sound(condition);
            lemma_localset_ids_stmts_sound(then_branch@);
            if let Some(eb) = else_branch {
                lemma_localset_ids_stmts_sound(eb@);
            }
        },
        Stmt::While { condition, body } | Stmt::DoWhile { body, condition } => {
            lemma_localset_ids_sound(condition);
            lemma_localset_ids_stmts_sound(body@);
        },
        Stmt::For { init, condition, update, body } => {
            if let Some(i) = init {
                lemma_localset_ids_stmt_sound(*i);
            }
            if let Some(c) = condition {
                lemma_localset_ids_sound(c);
            }
            if let Some(u) = update {
                lemma_localset_ids_sound(u);
            }
            lemma_localset_ids_stmts_sound(body@);
        },
        Stmt::Try { body, catch, finally } => {
            lemma_localset_ids_stmts_sound(body@);
            if let Some(c) = catch {
                lemma_localset_ids_stmts_sound(c.body@);
            }
            if let Some(f) = finally {
                lemma_localset_ids_stmts_sound(f@);
            }
        },
        Stmt::Switch { discriminant, cases } => {
            lemma_localset_ids_sound(discriminant);
            lemma_localset_ids_cases_sound(cases@);
        },
        Stmt::Labeled { body, .. } => {
            lemma_localset_ids_stmt_sound(*body);
        },
        _ => {},
    }
}

pub proof fn lemma_localset_ids_stmts_sound(ss: Seq<Stmt>)
    ensures
        localset_ids_stmts(ss).subset_of(locals_in_stmts(ss)),
    decreases ss,
{
    if ss.len() > 0 {
        lemma_localset_ids_stmts_sound(ss.drop_last());
        lemma_localset_ids_stmt_sound(ss.last());
    }
}

pub proof fn lemma_localset_ids_cases_sound(cs: Seq<SwitchCase>)
    ensures
        localset_ids_cases(cs).subset_of(locals_in_cases(cs)),
    decreases cs,
{
    if cs.len() > 0 {
        lemma_localset_ids_cases_sound(cs.drop_last());
        if let Some(t) = cs.last().test {
            lemma_localset_ids_sound(t);
        }
        lemma_localset_ids_stmts_sound(cs.last().body@);
    }
}

/// Soundness of `let_ids_stmt`: it reports only locals that occur in the
/// statement.
pub proof fn lemma_let_ids_stmt_sound(s: Stmt)
    ensures
        let_ids_stmt(s).subset_of(locals_in_stmt(s)),
    decreases s,
{
    match s {
        Stmt::Expr(x) | Stmt::Throw(x) | Stmt::Return(Some(x)) | Stmt::Let { init: Some(x), .. } => {
            
        },
        Stmt::If { condition, then_branch, else_branch } => {
            
            lemma_let_ids_stmts_sound(then_branch@);
            if let Some(eb) = else_branch {
                lemma_let_ids_stmts_sound(eb@);
            }
        },
        Stmt::While { condition, body } | Stmt::DoWhile { body, condition } => {
            
            lemma_let_ids_stmts_sound(body@);
        },
        Stmt::For { init, condition, update, body } => {
            if let Some(i) = init {
                lemma_let_ids_stmt_sound(*i);
            }
            if let Some(c) = condition {
                
            }
            if let Some(u) = update {
                
            }
            lemma_let_ids_stmts_sound(body@);
        },
        Stmt::Try { body, catch, finally } => {
            lemma_let_ids_stmts_sound(body@);
            if let Some(c) = catch {
                lemma_let_ids_stmts_sound(c.body@);
            }
            if let Some(f) = finally {
                lemma_let_ids_stmts_sound(f@);
            }
        },
        Stmt::Switch { discriminant, cases } => {
            
            
        },
        Stmt::Labeled { body, .. } => {
            lemma_let_ids_stmt_sound(*body);
        },
        _ => {},
    }
}

pub proof fn lemma_let_ids_stmts_sound(ss: Seq<Stmt>)
    ensures
        let_ids_stmts(ss).subset_of(locals_in_stmts(ss)),
    decreases ss,
{
    if ss.len() > 0 {
        lemma_let_ids_stmts_sound(ss.drop_last());
        lemma_let_ids_stmt_sound(ss.last());
    }
}

/// Soundness of `integer_let_ids_stmt`: it reports only locals that occur in the
/// statement.
pub proof fn lemma_integer_let_ids_stmt_sound(s: Stmt)
    ensures
        integer_let_ids_stmt(s).subset_of(locals_in_stmt(s)),
    decreases s,
{
    match s {
        Stmt::Expr(x) | Stmt::Throw(x) | Stmt::Return(Some(x)) | Stmt::Let { init: Some(x), .. } => {
            
        },
        Stmt::If { condition, then_branch, else_branch } => {
            
            lemma_integer_let_ids_stmts_sound(then_branch@);
            if let Some(eb) = else_branch {
                lemma_integer_let_ids_stmts_sound(eb@);
            }
        },
        Stmt::While { condition, body } | Stmt::DoWhile { body, condition } => {
            
            lemma_integer_let_ids_stmts_sound(body@);
        },
        Stmt::For { init, condition, update, body } => {
            if let Some(i) = init {
                lemma_integer_let_ids_stmt_sound(*i);
            }
            if let Some(c) = condition {
                
            }
            if let Some(u) = update {
                
            }
            lemma_integer_let_ids_stmts_sound(body@);
        },
        Stmt::Try { body, catch, finally } => {
            lemma_integer_let_ids_stmts_sound(body@);
            if let Some(c) = catch {
                lemma_integer_let_ids_stmts_sound(c.body@);
            }
            if let Some(f) = finally {
                lemma_integer_let_ids_stmts_sound(f@);
            }
        },
        Stmt::Switch { discriminant, cases } => {
            
            lemma_integer_let_ids_cases_sound(cases@);
        },
        Stmt::Labeled { body, .. } => {
            lemma_integer_let_ids_stmt_sound(*body);
        },
        _ => {},
    }
}

pub proof fn lemma_integer_let_ids_stmts_sound(ss: Seq<Stmt>)
    ensures
        integer_let_ids_stmts(ss).subset_of(locals_in_stmts(ss)),
    decreases ss,
{
    if ss.len() > 0 {
        lemma_integer_let_ids_stmts_sound(ss.drop_last());
        lemma_integer_let_ids_stmt_sound(ss.last());
    }
}

pub proof fn lemma_integer_let_ids_cases_sound(cs: Seq<SwitchCase>)
    ensures
        integer_let_ids_cases(cs).subset_of(locals_in_cases(cs)),
    decreases cs,
{
    if cs.len() > 0 {
        lemma_integer_let_ids_cases_sound(cs.drop_last());
        if let Some(t) = cs.last().test {
            
        }
        lemma_integer_let_ids_stmts_sound(cs.last().body@);
    }
}

} // verus!
